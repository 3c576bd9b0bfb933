//! Page-level extraction: turning one modelled document into a
//! structured page record — title, content, code examples, section
//! information and derived tags.
use crate::api::{extract_api_endpoints, page_endpoints_spec};
use crate::model::{CodeBlock, DocModel, Elem};
use crate::page::{CodeExample, CodeExampleV, DocumentationPage, PageV};
use crate::profiles::{config_view, PlatformConfig};
use crate::text::{capitalize_spec, capitalize_words, chars_of, chars_to_string, concat_seqs,
    dash_to_space, dash_to_space_spec, dec_of, join_sep, lower_of, lower_str, string_from_chars,
    subvec_chars, trim_spec, trimmed_concat_chars, trimmed_join_chars, u64_to_dec};
use crate::web::url_segments;
use vstd::prelude::*;

verus! {

// ---------------------------------------------------------------------
// Language detection
// ---------------------------------------------------------------------
/// The fixed whitelist of bare class names taken as languages.
pub open spec fn lang_whitelist() -> Seq<Seq<char>> {
    seq!["python"@, "javascript"@, "java"@, "rust"@, "go"@, "cpp"@, "bash"@]
}

/// Whether a class name carries the `language-` prefix.
pub open spec fn has_lang_prefix(c: Seq<char>) -> bool {
    c.len() >= 9 && c.take(9) == "language-"@
}

/// The first class with the `language-` prefix, if any.
pub open spec fn first_prefix_class(classes: Seq<Seq<char>>) -> Option<Seq<char>>
    decreases classes.len(),
{
    if classes.len() == 0 {
        None
    } else if has_lang_prefix(classes[0]) {
        Some(classes[0])
    } else {
        first_prefix_class(classes.drop_first())
    }
}

/// The first bare whitelist class, if any.
pub open spec fn first_whitelist_class(classes: Seq<Seq<char>>) -> Option<Seq<char>>
    decreases classes.len(),
{
    if classes.len() == 0 {
        None
    } else if lang_whitelist().contains(classes[0]) {
        Some(classes[0])
    } else {
        first_whitelist_class(classes.drop_first())
    }
}

/// The language detected from a class list, by a fixed priority: a
/// `language-` prefixed class anywhere in the list wins (the first
/// such, with the prefix stripped), else the first bare whitelist
/// class, else `text`.
pub open spec fn detect_language_spec(classes: Seq<Seq<char>>) -> Seq<char> {
    match first_prefix_class(classes) {
        Some(c) => c.skip(9),
        None => match first_whitelist_class(classes) {
            Some(c) => c,
            None => "text"@,
        },
    }
}

fn in_whitelist(c: &String) -> (r: bool)
    ensures
        r == lang_whitelist().contains(c@),
{
    let r = *c == String::from_str("python") || *c == String::from_str("javascript") || *c
        == String::from_str("java") || *c == String::from_str("rust") || *c == String::from_str(
        "go",
    ) || *c == String::from_str("cpp") || *c == String::from_str("bash");
    proof {
        assert(lang_whitelist()[0] == "python"@);
        assert(lang_whitelist()[1] == "javascript"@);
        assert(lang_whitelist()[2] == "java"@);
        assert(lang_whitelist()[3] == "rust"@);
        assert(lang_whitelist()[4] == "go"@);
        assert(lang_whitelist()[5] == "cpp"@);
        assert(lang_whitelist()[6] == "bash"@);
        if !r {
            assert(forall|k: int|
                0 <= k < lang_whitelist().len() ==> lang_whitelist()[k] != c@);
        }
    }
    r
}

fn prefix_lang_of(c: &String) -> (r: Option<String>)
    ensures
        match r {
            Some(s) => has_lang_prefix(c@) && s@ == c@.skip(9),
            None => !has_lang_prefix(c@),
        },
{
    let cs = chars_of(c.as_str());
    if cs.len() >= 9 {
        let prefix = subvec_chars(&cs, 0, 9);
        let prefix_s = string_from_chars(&prefix);
        proof {
            assert(cs@.subrange(0, 9) =~= c@.take(9));
        }
        if prefix_s == String::from_str("language-") {
            let rest = subvec_chars(&cs, 9, cs.len());
            let out = string_from_chars(&rest);
            proof {
                assert(rest@ =~= c@.skip(9));
            }
            return Some(out);
        }
    }
    None
}

/// Detects the code language from an element's class list, by a fixed
/// priority: a `language-` prefixed class anywhere in the list wins,
/// then a bare whitelist name, and `text` is the fallback.
pub fn detect_language(classes: &Vec<String>) -> (r: String)
    ensures
        r@ == detect_language_spec(classes.deep_view()),
{
    let mut i: usize = 0;
    proof {
        assert(classes.deep_view().skip(0) =~= classes.deep_view());
    }
    while i < classes.len()
        invariant
            i <= classes.len(),
            first_prefix_class(classes.deep_view().skip(i as int)) == first_prefix_class(
                classes.deep_view(),
            ),
        decreases classes.len() - i,
    {
        proof {
            assert(classes.deep_view().skip(i as int)[0] == classes.deep_view()[i as int]);
            assert(classes.deep_view().skip(i as int).drop_first() =~= classes.deep_view().skip(
                i as int + 1,
            ));
        }
        if let Some(lang) = prefix_lang_of(&classes[i]) {
            proof {
                assert(first_prefix_class(classes.deep_view()) == Some(
                    classes.deep_view()[i as int],
                ));
            }
            return lang;
        }
        i = i + 1;
    }
    proof {
        assert(classes.deep_view().skip(classes.len() as int) =~= Seq::<Seq<char>>::empty());
        assert(first_prefix_class(classes.deep_view()) is None);
    }
    let mut j: usize = 0;
    proof {
        assert(classes.deep_view().skip(0) =~= classes.deep_view());
    }
    while j < classes.len()
        invariant
            j <= classes.len(),
            first_prefix_class(classes.deep_view()) is None,
            first_whitelist_class(classes.deep_view().skip(j as int)) == first_whitelist_class(
                classes.deep_view(),
            ),
        decreases classes.len() - j,
    {
        proof {
            assert(classes.deep_view().skip(j as int)[0] == classes.deep_view()[j as int]);
            assert(classes.deep_view().skip(j as int).drop_first() =~= classes.deep_view().skip(
                j as int + 1,
            ));
        }
        if in_whitelist(&classes[j]) {
            proof {
                assert(first_whitelist_class(classes.deep_view()) == Some(
                    classes.deep_view()[j as int],
                ));
            }
            return classes[j].clone();
        }
        j = j + 1;
    }
    proof {
        assert(classes.deep_view().skip(classes.len() as int) =~= Seq::<Seq<char>>::empty());
        assert(first_whitelist_class(classes.deep_view()) is None);
    }
    String::from_str("text")
}

// ---------------------------------------------------------------------
// Code examples
// ---------------------------------------------------------------------
/// The description a code block carries: the trimmed text of the
/// element one sibling step before the block's parent, but only when
/// that sibling is a paragraph and the text's length is strictly
/// between zero and two hundred characters.
pub open spec fn code_desc_spec(prev: Option<Elem>) -> Option<Seq<char>> {
    match prev {
        Some(e) => {
            if e.tag@ == "p"@ {
                let d = trim_spec(join_sep(e.texts.deep_view(), ' '));
                if d.len() > 0 && d.len() < 200 {
                    Some(d)
                } else {
                    None
                }
            } else {
                None
            }
        },
        None => None,
    }
}

/// The code example one code block yields: nothing when its trimmed
/// text is shorter than ten characters; otherwise the text with the
/// detected language and, possibly, a description.
pub open spec fn code_example_spec(b: CodeBlock) -> Option<CodeExampleV> {
    let code = trim_spec(join_sep(b.elem.texts.deep_view(), ' '));
    if code.len() < 10 {
        None
    } else {
        Some(
            CodeExampleV {
                language: detect_language_spec(b.elem.classes.deep_view()),
                code,
                description: code_desc_spec(b.prev_of_parent),
            },
        )
    }
}

/// Reads one code block. A block whose trimmed text is shorter than
/// ten characters yields nothing.
pub fn code_example_of(b: &CodeBlock) -> (r: Option<CodeExample>)
    ensures
        r.deep_view() == code_example_spec(*b),
        trim_spec(join_sep(b.elem.texts.deep_view(), ' ')).len() < 10 ==> r is None,
{
    let code_chars = trimmed_join_chars(&b.elem.texts, ' ');
    if code_chars.len() < 10 {
        return None;
    }
    let code = chars_to_string(&code_chars);
    let language = detect_language(&b.elem.classes);
    let description: Option<String> = match &b.prev_of_parent {
        Some(e) => {
            if e.tag == String::from_str("p") {
                let d = trimmed_join_chars(&e.texts, ' ');
                if d.len() > 0 && d.len() < 200 {
                    Some(chars_to_string(&d))
                } else {
                    None
                }
            } else {
                None
            }
        },
        None => None,
    };
    let out = CodeExample { language, code, description };
    proof {
        assert(Some(out).deep_view() =~~= code_example_spec(*b));
    }
    Some(out)
}

pub open spec fn code_examples_spec(blocks: Seq<CodeBlock>) -> Seq<CodeExampleV>
    decreases blocks.len(),
{
    if blocks.len() == 0 {
        Seq::<CodeExampleV>::empty()
    } else {
        match code_example_spec(blocks[0]) {
            Some(c) => seq![c] + code_examples_spec(blocks.drop_first()),
            None => code_examples_spec(blocks.drop_first()),
        }
    }
}

/// Every code example of every extracted page has a code text of at
/// least ten characters: a block with a shorter trimmed text never
/// yields one.
pub proof fn lemma_code_examples_min_len(blocks: Seq<CodeBlock>)
    ensures
        forall|k: int|
            0 <= k < code_examples_spec(blocks).len() ==> (#[trigger] code_examples_spec(
                blocks,
            )[k]).code.len() >= 10,
    decreases blocks.len(),
{
    if blocks.len() == 0 {
    } else {
        lemma_code_examples_min_len(blocks.drop_first());
        match code_example_spec(blocks[0]) {
            Some(c) => {
                assert(forall|k: int|
                    1 <= k < code_examples_spec(blocks).len() ==> code_examples_spec(blocks)[k]
                        == code_examples_spec(blocks.drop_first())[k - 1]);
            },
            None => {},
        }
    }
}

/// Reads every code block of a page, in order, skipping the short ones.
pub fn extract_code_examples(blocks: &Vec<CodeBlock>) -> (r: Vec<CodeExample>)
    ensures
        r.deep_view() == code_examples_spec(blocks@),
{
    let mut out: Vec<CodeExample> = Vec::new();
    let mut i: usize = 0;
    proof {
        assert(blocks@.skip(0) =~= blocks@);
        assert(out.deep_view() + code_examples_spec(blocks@) =~= code_examples_spec(blocks@));
    }
    while i < blocks.len()
        invariant
            i <= blocks.len(),
            out.deep_view() + code_examples_spec(blocks@.skip(i as int)) == code_examples_spec(
                blocks@,
            ),
        decreases blocks.len() - i,
    {
        proof {
            assert(blocks@.skip(i as int)[0] == blocks@[i as int]);
            assert(blocks@.skip(i as int).drop_first() =~= blocks@.skip(i as int + 1));
        }
        let ghost old_out = out.deep_view();
        if let Some(c) = code_example_of(&blocks[i]) {
            out.push(c);
            proof {
                assert(out.deep_view() =~= old_out.push(
                    code_example_spec(blocks@[i as int]).unwrap(),
                ));
                assert(old_out.push(code_example_spec(blocks@[i as int]).unwrap())
                    + code_examples_spec(blocks@.skip(i as int + 1)) =~= old_out + (seq![
                    code_example_spec(blocks@[i as int]).unwrap()] + code_examples_spec(
                    blocks@.skip(i as int + 1),
                )));
            }
        }
        i = i + 1;
    }
    proof {
        assert(blocks@.skip(blocks.len() as int) =~= Seq::<CodeBlock>::empty());
        assert(out.deep_view() + Seq::<CodeExampleV>::empty() =~= out.deep_view());
    }
    out
}

// ---------------------------------------------------------------------
// Section and subsection
// ---------------------------------------------------------------------
/// The trimmed, non-empty breadcrumb texts, in document order.
pub open spec fn crumb_texts_spec(bs: Seq<Elem>) -> Seq<Seq<char>>
    decreases bs.len(),
{
    if bs.len() == 0 {
        Seq::<Seq<char>>::empty()
    } else {
        let t = trim_spec(concat_seqs(bs[0].texts.deep_view()));
        if t.len() > 0 {
            seq![t] + crumb_texts_spec(bs.drop_first())
        } else {
            crumb_texts_spec(bs.drop_first())
        }
    }
}

/// One URL path segment made readable: hyphens and underscores become
/// spaces, every word is capitalized.
pub open spec fn seg_transform_spec(s: Seq<char>) -> Seq<char> {
    capitalize_spec(dash_to_space_spec(s))
}

/// The section and subsection of a page. Breadcrumbs decide when at
/// least two non-empty ones exist: section is the second-to-last,
/// subsection the last (only with at least three). Otherwise the URL
/// path decides by the same positions among its segments, each made
/// readable; with fewer than two segments both stay unset.
pub open spec fn section_info_spec(crumb_elems: Seq<Elem>, url: Seq<char>) -> (
    Option<Seq<char>>,
    Option<Seq<char>>,
) {
    let crumbs = crumb_texts_spec(crumb_elems);
    if crumbs.len() > 1 {
        (
            Some(crumbs[crumbs.len() - 2]),
            if crumbs.len() > 2 {
                Some(crumbs.last())
            } else {
                None
            },
        )
    } else {
        match url_segments(url) {
            Some(segs) => {
                if segs.len() > 1 {
                    (
                        Some(seg_transform_spec(segs[segs.len() - 2])),
                        if segs.len() > 2 {
                            Some(seg_transform_spec(segs.last()))
                        } else {
                            None
                        },
                    )
                } else {
                    (None, None)
                }
            },
            None => (None, None),
        }
    }
}

fn seg_transform(s: &String) -> (r: String)
    ensures
        r@ == seg_transform_spec(s@),
{
    let cs = chars_of(s.as_str());
    let replaced = dash_to_space(&cs);
    let replaced_s = chars_to_string(&replaced);
    capitalize_words(replaced_s.as_str())
}

/// Derives section and subsection from the breadcrumbs, falling back
/// to the URL path.
pub fn extract_section_info(breadcrumbs: &Vec<Elem>, url: &str) -> (r: (
    Option<String>,
    Option<String>,
))
    ensures
        r.0.deep_view() == section_info_spec(breadcrumbs@, url@).0,
        r.1.deep_view() == section_info_spec(breadcrumbs@, url@).1,
{
    let mut crumbs: Vec<String> = Vec::new();
    let mut i: usize = 0;
    proof {
        assert(breadcrumbs@.skip(0) =~= breadcrumbs@);
        assert(crumbs.deep_view() + crumb_texts_spec(breadcrumbs@) =~= crumb_texts_spec(
            breadcrumbs@,
        ));
    }
    while i < breadcrumbs.len()
        invariant
            i <= breadcrumbs.len(),
            crumbs.deep_view() + crumb_texts_spec(breadcrumbs@.skip(i as int)) == crumb_texts_spec(
                breadcrumbs@,
            ),
        decreases breadcrumbs.len() - i,
    {
        proof {
            assert(breadcrumbs@.skip(i as int)[0] == breadcrumbs@[i as int]);
            assert(breadcrumbs@.skip(i as int).drop_first() =~= breadcrumbs@.skip(i as int + 1));
        }
        let ghost old_crumbs = crumbs.deep_view();
        let t = trimmed_concat_chars(&breadcrumbs[i].texts);
        if t.len() > 0 {
            let ts = chars_to_string(&t);
            crumbs.push(ts);
            proof {
                let tv = trim_spec(concat_seqs(breadcrumbs@[i as int].texts.deep_view()));
                assert(crumbs.deep_view() =~= old_crumbs.push(tv));
                assert(old_crumbs.push(tv) + crumb_texts_spec(breadcrumbs@.skip(i as int + 1))
                    =~= old_crumbs + (seq![tv] + crumb_texts_spec(breadcrumbs@.skip(i as int + 1))));
            }
        }
        i = i + 1;
    }
    proof {
        assert(breadcrumbs@.skip(breadcrumbs.len() as int) =~= Seq::<Elem>::empty());
        assert(crumbs.deep_view() + Seq::<Seq<char>>::empty() =~= crumbs.deep_view());
    }

    if crumbs.len() > 1 {
        let section = Some(crumbs[crumbs.len() - 2].clone());
        let subsection = if crumbs.len() > 2 {
            Some(crumbs[crumbs.len() - 1].clone())
        } else {
            None
        };
        proof {
            assert(crumbs.deep_view().last() == crumbs.deep_view()[crumbs.len() - 1]);
        }
        return (section, subsection);
    }

    match crate::web::path_segments_of(url) {
        Some(segs) => {
            if segs.len() > 1 {
                let section = Some(seg_transform(&segs[segs.len() - 2]));
                let subsection = if segs.len() > 2 {
                    Some(seg_transform(&segs[segs.len() - 1]))
                } else {
                    None
                };
                proof {
                    assert(segs.deep_view().last() == segs.deep_view()[segs.len() - 1]);
                }
                (section, subsection)
            } else {
                (None, None)
            }
        },
        None => (None, None),
    }
}

// ---------------------------------------------------------------------
// Tags
// ---------------------------------------------------------------------
/// Whether the regular expression `pattern` matches anywhere in `text`,
/// as the `regex` crate decides it; a pattern that does not compile
/// matches nothing. A function of the two strings alone.
pub uninterp spec fn regex_match(pattern: Seq<char>, text: Seq<char>) -> bool;

/// Relies on `regex::Regex::new` and `regex::Regex::is_match`: whether
/// the pattern matches anywhere in the text.
#[verifier::external_body]
fn regex_is_match(pattern: &str, text: &str) -> (r: bool)
    ensures
        r == regex_match(pattern@, text@),
{
    match regex::Regex::new(pattern) {
        Ok(re) => re.is_match(text),
        Err(_) => false,
    }
}

/// The text the tag rules run over: lowercased title, content and
/// section, joined by single spaces (an unset section counts as empty).
pub open spec fn tag_text_spec(
    title: Seq<char>,
    content: Seq<char>,
    section: Option<Seq<char>>,
) -> Seq<char> {
    lower_of(title) + seq![' '] + lower_of(content) + seq![' '] + lower_of(
        match section {
            Some(s) => s,
            None => Seq::<char>::empty(),
        },
    )
}

/// The tags the fixed rules yield on a text, in rule order; each tag
/// appears at most once.
pub open spec fn tags_from_text(text: Seq<char>) -> Seq<Seq<char>> {
    let t0 = Seq::<Seq<char>>::empty();
    let t1 = if regex_match("\\bapi\\b|\\bendpoint\\b|\\brest\\b"@, text) {
        t0.push("api"@)
    } else {
        t0
    };
    let t2 = if regex_match("\\btutorial\\b|\\bguide\\b|\\bwalkthrough\\b"@, text) {
        t1.push("tutorial"@)
    } else {
        t1
    };
    let t3 = if regex_match("\\breference\\b|\\bdocs\\b|\\bdocumentation\\b"@, text) {
        t2.push("reference"@)
    } else {
        t2
    };
    let t4 = if regex_match("\\binstall\\b|\\bsetup\\b|\\bconfiguration\\b"@, text) {
        t3.push("installation"@)
    } else {
        t3
    };
    let t5 = if regex_match("\\bauth\\b|\\blogin\\b|\\btoken\\b|\\bsecurity\\b"@, text) {
        t4.push("authentication"@)
    } else {
        t4
    };
    let t6 = if regex_match("\\bdatabase\\b|\\bsql\\b|\\bmongo\\b|\\bmysql\\b"@, text) {
        t5.push("database"@)
    } else {
        t5
    };
    let t7 = if regex_match("\\bfrontend\\b|\\bui\\b|\\bjavascript\\b|\\breact\\b"@, text) {
        t6.push("frontend"@)
    } else {
        t6
    };
    let t8 = if regex_match("\\bbackend\\b|\\bserver\\b|\\bnode\\b|\\bpython\\b"@, text) {
        t7.push("backend"@)
    } else {
        t7
    };
    let t9 = if regex_match("\\bmobile\\b|\\bios\\b|\\bandroid\\b|\\bapp\\b"@, text) {
        t8.push("mobile"@)
    } else {
        t8
    };
    let t10 = if regex_match("\\bdeploy\\b|\\bproduction\\b|\\bhosting\\b"@, text) {
        t9.push("deployment"@)
    } else {
        t9
    };
    t10
}

/// The tags a page gets from its title, content and section.
pub open spec fn tags_spec(
    title: Seq<char>,
    content: Seq<char>,
    section: Option<Seq<char>>,
) -> Seq<Seq<char>> {
    tags_from_text(tag_text_spec(title, content, section))
}

fn push_tag(tags: &mut Vec<String>, tag: &str)
    ensures
        final(tags).deep_view() == old(tags).deep_view().push(tag@),
{
    let t = tag.to_owned();
    tags.push(t);
    proof {
        assert(tags.deep_view() =~= old(tags).deep_view().push(tag@));
    }
}

/// Runs the fixed tag rules over the lowercased title, content and
/// section of a page. The rules run in a fixed order and each adds its
/// tag at most once, so the result is a deterministic, order-stable
/// function of the inputs.
pub fn extract_tags(title: &str, content: &str, section: Option<&str>) -> (r: Vec<String>)
    ensures
        r.deep_view() == tags_spec(
            title@,
            content@,
            match section {
                Some(s) => Some(s@),
                None => None,
            },
        ),
{
    let mut text = lower_str(title);
    let mut space: Vec<char> = Vec::new();
    space.push(' ');
    let space_s = chars_to_string(&space);
    assert(space_s@ =~= seq![' ']);
    text.append(space_s.as_str());
    let content_l = lower_str(content);
    text.append(content_l.as_str());
    text.append(space_s.as_str());
    let section_l = match section {
        Some(s) => lower_str(s),
        None => lower_str(""),
    };
    text.append(section_l.as_str());
    proof {
        reveal_strlit("");
        assert(""@ =~= Seq::<char>::empty());
    }
    let ghost tv = tag_text_spec(
        title@,
        content@,
        match section {
            Some(s) => Some(s@),
            None => None,
        },
    );
    assert(text@ == tv);

    let mut tags: Vec<String> = Vec::new();
    proof {
        assert(tags.deep_view() =~= Seq::<Seq<char>>::empty());
    }
    if regex_is_match("\\bapi\\b|\\bendpoint\\b|\\brest\\b", text.as_str()) {
        push_tag(&mut tags, "api");
    }
    if regex_is_match("\\btutorial\\b|\\bguide\\b|\\bwalkthrough\\b", text.as_str()) {
        push_tag(&mut tags, "tutorial");
    }
    if regex_is_match("\\breference\\b|\\bdocs\\b|\\bdocumentation\\b", text.as_str()) {
        push_tag(&mut tags, "reference");
    }
    if regex_is_match("\\binstall\\b|\\bsetup\\b|\\bconfiguration\\b", text.as_str()) {
        push_tag(&mut tags, "installation");
    }
    if regex_is_match("\\bauth\\b|\\blogin\\b|\\btoken\\b|\\bsecurity\\b", text.as_str()) {
        push_tag(&mut tags, "authentication");
    }
    if regex_is_match("\\bdatabase\\b|\\bsql\\b|\\bmongo\\b|\\bmysql\\b", text.as_str()) {
        push_tag(&mut tags, "database");
    }
    if regex_is_match("\\bfrontend\\b|\\bui\\b|\\bjavascript\\b|\\breact\\b", text.as_str()) {
        push_tag(&mut tags, "frontend");
    }
    if regex_is_match("\\bbackend\\b|\\bserver\\b|\\bnode\\b|\\bpython\\b", text.as_str()) {
        push_tag(&mut tags, "backend");
    }
    if regex_is_match("\\bmobile\\b|\\bios\\b|\\bandroid\\b|\\bapp\\b", text.as_str()) {
        push_tag(&mut tags, "mobile");
    }
    if regex_is_match("\\bdeploy\\b|\\bproduction\\b|\\bhosting\\b", text.as_str()) {
        push_tag(&mut tags, "deployment");
    }
    assert(tags.deep_view() =~= tags_from_text(tv));
    tags
}

/// Tag extraction is deterministic and order-stable: any two runs over
/// the same title, content and section yield the identical tag list.
pub proof fn lemma_tags_idempotent(
    title: Seq<char>,
    content: Seq<char>,
    section: Option<Seq<char>>,
    r1: Seq<Seq<char>>,
    r2: Seq<Seq<char>>,
)
    requires
        r1 == tags_spec(title, content, section),
        r2 == tags_spec(title, content, section),
    ensures
        r1 == r2,
{
}

// ---------------------------------------------------------------------
// The page
// ---------------------------------------------------------------------
/// The page title: the first title match's trimmed text, or the fixed
/// default when the selector matched nothing.
pub open spec fn title_spec(titles: Seq<Elem>) -> Seq<char> {
    if titles.len() > 0 {
        trim_spec(concat_seqs(titles[0].texts.deep_view()))
    } else {
        "Documentation Page"@
    }
}

/// The page content: the first content match's text nodes joined by
/// newlines and trimmed; empty when the selector matched nothing.
pub open spec fn content_spec(contents: Seq<Elem>) -> Seq<char> {
    if contents.len() > 0 {
        trim_spec(join_sep(contents[0].texts.deep_view(), '\n'))
    } else {
        Seq::<char>::empty()
    }
}

/// The record one page yields, or nothing when its content is shorter
/// than one hundred characters (a navigation-only or placeholder page).
pub open spec fn page_spec(
    doc: DocModel,
    url: Seq<char>,
    api_selector: Option<Seq<char>>,
    scraped_at: u64,
) -> Option<PageV> {
    let content = content_spec(doc.contents@);
    if content.len() < 100 {
        None
    } else {
        let title = title_spec(doc.titles@);
        let info = section_info_spec(doc.breadcrumbs@, url);
        Some(
            PageV {
                url,
                title,
                content,
                section: info.0,
                subsection: info.1,
                api_endpoints: page_endpoints_spec(doc.api_blocks@, api_selector),
                code_examples: code_examples_spec(doc.code_blocks@),
                last_updated: None,
                tags: tags_spec(title, content, info.0),
                scraped_at: dec_of(scraped_at as int),
            },
        )
    }
}

/// Extracts one page record from a modelled document. Succeeds exactly
/// when the page's trimmed content reaches one hundred characters; a
/// shorter page is skipped, so it can never reach the final page list.
pub fn extract_page(doc: &DocModel, url: &str, config: &PlatformConfig, scraped_at: u64) -> (r:
    Option<DocumentationPage>)
    ensures
        r.deep_view() == page_spec(*doc, url@, config_view(config).4, scraped_at),
        r is Some <==> content_spec(doc.contents@).len() >= 100,
        r matches Some(p) ==> p@.content.len() >= 100,
{
    let content_chars = if doc.contents.len() > 0 {
        trimmed_join_chars(&doc.contents[0].texts, '\n')
    } else {
        Vec::new()
    };
    proof {
        if doc.contents.len() == 0 {
            assert(content_chars@ =~= content_spec(doc.contents@));
        }
    }
    if content_chars.len() < 100 {
        return None;
    }
    let content = chars_to_string(&content_chars);

    let title = if doc.titles.len() > 0 {
        let t = trimmed_concat_chars(&doc.titles[0].texts);
        chars_to_string(&t)
    } else {
        String::from_str("Documentation Page")
    };

    let (section, subsection) = extract_section_info(&doc.breadcrumbs, url);
    let code_examples = extract_code_examples(&doc.code_blocks);
    let api_endpoints = extract_api_endpoints(&doc.api_blocks, config);
    let tags = extract_tags(
        title.as_str(),
        content.as_str(),
        match &section {
            Some(s) => Some(s.as_str()),
            None => None,
        },
    );
    let scraped_at_str = u64_to_dec(scraped_at);

    let out = DocumentationPage {
        url: url.to_owned(),
        title,
        content,
        section,
        subsection,
        api_endpoints,
        code_examples,
        last_updated: None,
        tags,
        scraped_at: scraped_at_str,
    };
    proof {
        assert(Some(out).deep_view() =~~= page_spec(
            *doc,
            url@,
            config_view(config).4,
            scraped_at,
        ));
    }
    Some(out)
}

} // verus!
