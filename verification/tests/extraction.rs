use doc_scraper::extract::{
    code_example_of, detect_language, extract_code_examples, extract_page, extract_section_info,
    extract_tags,
};
use doc_scraper::model::{ApiBlock, CodeBlock, DocModel, Elem, ParamBlock};
use doc_scraper::page::DocumentationPage;
use doc_scraper::profiles::lookup;

fn elem(tag: &str, texts: &[&str], classes: &[&str], href: Option<&str>) -> Elem {
    Elem {
        tag: tag.to_string(),
        texts: texts.iter().map(|t| t.to_string()).collect(),
        classes: classes.iter().map(|c| c.to_string()).collect(),
        href: href.map(|h| h.to_string()),
    }
}

fn empty_doc() -> DocModel {
    DocModel {
        titles: Vec::new(),
        contents: Vec::new(),
        code_blocks: Vec::new(),
        breadcrumbs: Vec::new(),
        nav_links: Vec::new(),
        api_blocks: Vec::new(),
    }
}

#[test]
fn language_prefix_class_wins() {
    let classes = vec!["highlight".to_string(), "language-python".to_string()];
    assert_eq!(detect_language(&classes), "python");
}

#[test]
fn language_bare_whitelist_class() {
    let classes = vec!["javascript".to_string()];
    assert_eq!(detect_language(&classes), "javascript");
}

#[test]
fn language_prefix_beats_whitelist_anywhere_in_the_list() {
    let classes = vec!["python".to_string(), "language-rust".to_string()];
    assert_eq!(detect_language(&classes), "rust");
    let classes = vec!["language-go".to_string(), "python".to_string()];
    assert_eq!(detect_language(&classes), "go");
}

#[test]
fn language_unknown_class_falls_back_to_text() {
    let classes = vec!["highlight".to_string(), "lined".to_string()];
    assert_eq!(detect_language(&classes), "text");
    assert_eq!(detect_language(&Vec::new()), "text");
}

#[test]
fn short_code_block_yields_no_example() {
    let block = CodeBlock {
        elem: elem("code", &["x = 1"], &["language-python"], None),
        prev_of_parent: None,
    };
    assert!(code_example_of(&block).is_none());
}

#[test]
fn code_block_with_preceding_paragraph_gets_description() {
    let block = CodeBlock {
        elem: elem("code", &["echo hello", "world again"], &["language-bash"], None),
        prev_of_parent: Some(elem("p", &["Run this command"], &[], None)),
    };
    let ex = code_example_of(&block).expect("long enough block");
    assert_eq!(ex.language, "bash");
    assert_eq!(ex.code, "echo hello world again");
    assert_eq!(ex.description.as_deref(), Some("Run this command"));
}

#[test]
fn code_block_description_needs_paragraph_tag() {
    let block = CodeBlock {
        elem: elem("code", &["echo hello world"], &[], None),
        prev_of_parent: Some(elem("div", &["Run this command"], &[], None)),
    };
    let ex = code_example_of(&block).expect("long enough block");
    assert_eq!(ex.language, "text");
    assert_eq!(ex.description, None);
}

#[test]
fn code_block_description_length_bounds() {
    let long = "d".repeat(200);
    let block = CodeBlock {
        elem: elem("code", &["echo hello world"], &[], None),
        prev_of_parent: Some(elem("p", &[long.as_str()], &[], None)),
    };
    assert_eq!(code_example_of(&block).unwrap().description, None);

    let empty = CodeBlock {
        elem: elem("code", &["echo hello world"], &[], None),
        prev_of_parent: Some(elem("p", &["   "], &[], None)),
    };
    assert_eq!(code_example_of(&empty).unwrap().description, None);
}

#[test]
fn code_examples_keep_order_and_skip_short() {
    let blocks = vec![
        CodeBlock { elem: elem("code", &["first long example"], &[], None), prev_of_parent: None },
        CodeBlock { elem: elem("code", &["tiny"], &[], None), prev_of_parent: None },
        CodeBlock { elem: elem("code", &["second long example"], &[], None), prev_of_parent: None },
    ];
    let examples = extract_code_examples(&blocks);
    assert_eq!(examples.len(), 2);
    assert_eq!(examples[0].code, "first long example");
    assert_eq!(examples[1].code, "second long example");
}

#[test]
fn section_from_breadcrumbs() {
    let crumbs = vec![
        elem("li", &["Home"], &[], None),
        elem("li", &["  Guides "], &[], None),
        elem("li", &["Install"], &[], None),
    ];
    let (section, subsection) = extract_section_info(&crumbs, "https://docs.example.com/");
    assert_eq!(section.as_deref(), Some("Guides"));
    assert_eq!(subsection.as_deref(), Some("Install"));
}

#[test]
fn section_from_two_breadcrumbs_has_no_subsection() {
    let crumbs = vec![elem("li", &["Home"], &[], None), elem("li", &["Install"], &[], None)];
    let (section, subsection) = extract_section_info(&crumbs, "https://docs.example.com/");
    assert_eq!(section.as_deref(), Some("Home"));
    assert_eq!(subsection, None);
}

#[test]
fn section_from_url_path_fallback() {
    let (section, subsection) =
        extract_section_info(&Vec::new(), "https://docs.example.com/getting-started/first_steps/intro");
    assert_eq!(section.as_deref(), Some("First Steps"));
    assert_eq!(subsection.as_deref(), Some("Intro"));
}

#[test]
fn section_unset_without_breadcrumbs_or_path() {
    let (section, subsection) = extract_section_info(&Vec::new(), "https://docs.example.com/");
    assert_eq!(section, None);
    assert_eq!(subsection, None);
}

#[test]
fn tags_match_keywords_case_insensitively() {
    let tags = extract_tags("INSTALL Guide", "how to deploy the server", None);
    assert!(tags.contains(&"tutorial".to_string()));
    assert!(tags.contains(&"installation".to_string()));
    assert!(tags.contains(&"backend".to_string()));
    assert!(tags.contains(&"deployment".to_string()));
    assert!(!tags.contains(&"api".to_string()));
}

#[test]
fn tags_need_word_boundaries() {
    let tags = extract_tags("rapid", "restless uninstallation", None);
    assert!(tags.is_empty());
}

#[test]
fn tags_are_idempotent_and_order_stable() {
    let first = extract_tags("API tutorial", "database and mobile app setup", Some("Server"));
    let second = extract_tags("API tutorial", "database and mobile app setup", Some("Server"));
    assert_eq!(first, second);
    let expected: Vec<String> =
        ["api", "tutorial", "installation", "database", "backend", "mobile"]
            .iter()
            .map(|s| s.to_string())
            .collect();
    assert_eq!(first, expected);
}

#[test]
fn page_with_short_content_is_skipped() {
    let mut doc = empty_doc();
    doc.titles.push(elem("h1", &["A Title"], &[], None));
    doc.contents.push(elem("main", &["too short"], &[], None));
    doc.code_blocks.push(CodeBlock {
        elem: elem("code", &["a perfectly long example"], &[], None),
        prev_of_parent: None,
    });
    let config = lookup("generic");
    assert!(extract_page(&doc, "https://docs.example.com/a/b", &config, 0).is_none());
}

#[test]
fn page_extraction_end_to_end() {
    let content = "c".repeat(150);
    let mut doc = empty_doc();
    doc.titles.push(elem("h1", &[" Install Guide "], &[], None));
    doc.contents.push(elem("main", &[content.as_str()], &[], None));
    doc.code_blocks.push(CodeBlock {
        elem: elem("code", &["sudo make me a sandwich"], &["language-bash"], None),
        prev_of_parent: Some(elem("p", &["Run this command"], &[], None)),
    });
    let config = lookup("generic");
    let page = extract_page(&doc, "https://docs.example.com/guide/install", &config, 1700000000)
        .expect("long enough content");
    assert_eq!(page.title, "Install Guide");
    assert_eq!(page.content, content);
    assert_eq!(page.section.as_deref(), Some("Guide"));
    assert_eq!(page.subsection, None);
    assert_eq!(page.code_examples.len(), 1);
    assert_eq!(page.code_examples[0].language, "bash");
    assert_eq!(page.code_examples[0].description.as_deref(), Some("Run this command"));
    assert!(page.tags.contains(&"tutorial".to_string()));
    assert!(page.tags.contains(&"installation".to_string()));
    assert_eq!(page.last_updated, None);
    assert_eq!(page.scraped_at, "1700000000");
    assert!(page.api_endpoints.is_empty());
    assert_eq!(page.url, "https://docs.example.com/guide/install");
}

#[test]
fn page_without_title_match_gets_default_title() {
    let content = "c".repeat(120);
    let mut doc = empty_doc();
    doc.contents.push(elem("main", &[content.as_str()], &[], None));
    let config = lookup("generic");
    let page = extract_page(&doc, "https://docs.example.com/", &config, 5).unwrap();
    assert_eq!(page.title, "Documentation Page");
    assert_eq!(page.scraped_at, "5");
}

fn swagger_block() -> ApiBlock {
    ApiBlock {
        method: Some(elem("span", &["get"], &[], None)),
        path: Some(elem("span", &[" /pets "], &[], None)),
        desc: Some(elem("div", &["List pets"], &[], None)),
        params: vec![
            ParamBlock {
                name: Some(elem("span", &["limit"], &[], None)),
                ptype: Some(elem("span", &["integer"], &[], None)),
                desc: None,
            },
            ParamBlock { name: None, ptype: None, desc: None },
        ],
        examples: vec![elem("pre", &["{\"pets\":[]}"], &[], None), elem("pre", &["  "], &[], None)],
    }
}

#[test]
fn api_endpoint_extraction_uppercases_method() {
    let endpoint = doc_scraper::api::parse_api_endpoint(&swagger_block()).expect("method and path");
    assert_eq!(endpoint.method, "GET");
    assert_eq!(endpoint.path, "/pets");
    assert_eq!(endpoint.description, "List pets");
    assert_eq!(endpoint.parameters.len(), 1);
    assert_eq!(endpoint.parameters[0].name, "limit");
    assert_eq!(endpoint.parameters[0].param_type, "integer");
    assert_eq!(endpoint.parameters[0].description, "");
    assert!(!endpoint.parameters[0].required);
    assert_eq!(endpoint.code_examples.len(), 1);
    assert_eq!(endpoint.code_examples[0].language, "json");
    assert_eq!(endpoint.code_examples[0].code, "{\"pets\":[]}");
    assert_eq!(
        endpoint.code_examples[0].description.as_deref(),
        Some("API response example")
    );
    assert_eq!(endpoint.response_format, None);
}

#[test]
fn api_block_without_path_is_dropped() {
    let mut block = swagger_block();
    block.path = None;
    assert!(doc_scraper::api::parse_api_endpoint(&block).is_none());
}

#[test]
fn api_endpoints_only_with_api_selector() {
    let mut doc = empty_doc();
    let content = "c".repeat(150);
    doc.contents.push(elem("div", &[content.as_str()], &[], None));
    doc.api_blocks.push(swagger_block());

    let generic = lookup("generic");
    let page = extract_page(&doc, "https://docs.example.com/api", &generic, 0).unwrap();
    assert!(page.api_endpoints.is_empty());

    let swagger = lookup("swagger");
    let doc2 = DocModel { api_blocks: vec![swagger_block()], ..empty_doc() };
    let mut doc2 = doc2;
    doc2.contents.push(elem("div", &[content.as_str()], &[], None));
    let page2 = extract_page(&doc2, "https://docs.example.com/api", &swagger, 0).unwrap();
    assert_eq!(page2.api_endpoints.len(), 1);
    assert_eq!(page2.api_endpoints[0].method, "GET");
}

#[test]
fn capitalize_words_examples() {
    assert_eq!(doc_scraper::text::capitalize_words("getting started"), "Getting Started");
    assert_eq!(doc_scraper::text::capitalize_words("  API   reference  "), "Api Reference");
    assert_eq!(doc_scraper::text::capitalize_words(""), "");
}
