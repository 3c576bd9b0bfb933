//! The library's view of a parsed markup document.
//!
//! The crawler's markup parser is an external collaborator: it turns raw
//! bytes into a navigable document and answers selector queries. The
//! extraction logic only ever reads plain values out of the elements that
//! those queries return, so the document is modelled here as exactly those
//! values. The caller runs the active profile's selectors over the real
//! document and fills one `DocModel` per page.
use vstd::prelude::*;

verus! {

/// One element returned by a selector query: its tag name, the text of
/// its descendant text nodes in document order, its class list in
/// attribute order, and its `href` attribute, if any.
pub struct Elem {
    pub tag: String,
    pub texts: Vec<String>,
    pub classes: Vec<String>,
    pub href: Option<String>,
}

/// One match of the code selector, together with the element that
/// immediately precedes the match's parent (one sibling step only, and
/// only when that sibling is itself an element).
pub struct CodeBlock {
    pub elem: Elem,
    pub prev_of_parent: Option<Elem>,
}

/// One match of the parameter-block selector inside an API block: the
/// first match of the name, type and description sub-selectors, when
/// present.
pub struct ParamBlock {
    pub name: Option<Elem>,
    pub ptype: Option<Elem>,
    pub desc: Option<Elem>,
}

/// One match of the profile's API selector, with the first match of the
/// method, path and description sub-selectors, every parameter block,
/// and every example-code match inside it.
pub struct ApiBlock {
    pub method: Option<Elem>,
    pub path: Option<Elem>,
    pub desc: Option<Elem>,
    pub params: Vec<ParamBlock>,
    pub examples: Vec<Elem>,
}

/// Everything the page extractor reads from one parsed document: the
/// matches of the active profile's title, content, code, navigation and
/// API selectors, and of the fixed breadcrumb selector.
pub struct DocModel {
    pub titles: Vec<Elem>,
    pub contents: Vec<Elem>,
    pub code_blocks: Vec<CodeBlock>,
    pub breadcrumbs: Vec<Elem>,
    pub nav_links: Vec<Elem>,
    pub api_blocks: Vec<ApiBlock>,
}

} // verus!
