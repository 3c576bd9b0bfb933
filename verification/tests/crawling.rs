use doc_scraper::crawl::{build_frontier, collect_pages, DocumentationScraperRust};
use doc_scraper::links::discover_documentation_links;
use doc_scraper::model::Elem;
use doc_scraper::page::DocumentationPage;
use doc_scraper::profiles::lookup;
use doc_scraper::report::{analyze_documentation, StatValue};
use doc_scraper::visited::VisitedSet;

fn nav(href: Option<&str>) -> Elem {
    Elem {
        tag: "a".to_string(),
        texts: Vec::new(),
        classes: Vec::new(),
        href: href.map(|h| h.to_string()),
    }
}

fn page(url: &str, content: &str, section: Option<&str>, tags: &[&str]) -> DocumentationPage {
    DocumentationPage {
        url: url.to_string(),
        title: "T".to_string(),
        content: content.to_string(),
        section: section.map(|s| s.to_string()),
        subsection: None,
        api_endpoints: Vec::new(),
        code_examples: Vec::new(),
        last_updated: None,
        tags: tags.iter().map(|t| t.to_string()).collect(),
        scraped_at: "0".to_string(),
    }
}

#[test]
fn try_claim_succeeds_exactly_once() {
    let mut visited = VisitedSet::new();
    assert!(visited.try_claim("https://docs.example.com/a"));
    for _ in 0..9 {
        assert!(!visited.try_claim("https://docs.example.com/a"));
    }
    assert!(visited.try_claim("https://docs.example.com/b"));
    assert!(!visited.try_claim("https://docs.example.com/b"));
}

#[test]
fn discovery_keeps_same_host_links_only() {
    let navs = vec![
        nav(Some("/install")),
        nav(Some("https://elsewhere.org/install")),
        nav(None),
        nav(Some("deeper/page.html")),
    ];
    let links =
        discover_documentation_links(&navs, "https://docs.example.com/guide/", 10);
    assert_eq!(
        links,
        vec![
            "https://docs.example.com/install".to_string(),
            "https://docs.example.com/guide/deeper/page.html".to_string(),
        ]
    );
}

#[test]
fn discovery_respects_the_limit() {
    let navs = vec![nav(Some("/a")), nav(Some("/b")), nav(Some("/c"))];
    let links = discover_documentation_links(&navs, "https://docs.example.com/", 2);
    assert_eq!(links.len(), 2);
    assert_eq!(links[0], "https://docs.example.com/a");
    assert_eq!(links[1], "https://docs.example.com/b");
    assert!(discover_documentation_links(&navs, "https://docs.example.com/", 0).is_empty());
}

#[test]
fn discovery_skips_unresolvable_bases() {
    let navs = vec![nav(Some("/a"))];
    assert!(discover_documentation_links(&navs, "not a url", 5).is_empty());
}

#[test]
fn frontier_is_base_plus_discovered_capped() {
    let discovered = vec![
        "https://docs.example.com/a".to_string(),
        "https://docs.example.com/b".to_string(),
    ];
    let frontier = build_frontier("https://docs.example.com/", &discovered, 10);
    assert_eq!(frontier.len(), 3);
    assert_eq!(frontier[0], "https://docs.example.com/");
    assert_eq!(frontier[2], "https://docs.example.com/b");

    let capped = build_frontier("https://docs.example.com/", &discovered, 2);
    assert_eq!(capped.len(), 2);
    assert_eq!(capped[0], "https://docs.example.com/");
    assert_eq!(capped[1], "https://docs.example.com/a");
}

#[test]
fn frontier_with_cap_one_is_base_alone() {
    let discovered = vec!["https://docs.example.com/a".to_string()];
    let frontier = build_frontier("https://docs.example.com/", &discovered, 1);
    assert_eq!(frontier, vec!["https://docs.example.com/".to_string()]);
}

#[test]
fn collect_pages_drops_skips_and_keeps_order() {
    let results = vec![
        Some(page("https://d/1", "x", None, &[])),
        None,
        Some(page("https://d/2", "y", None, &[])),
        None,
    ];
    let pages = collect_pages(results);
    assert_eq!(pages.len(), 2);
    assert_eq!(pages[0].url, "https://d/1");
    assert_eq!(pages[1].url, "https://d/2");
}

#[test]
fn scraper_lowercases_platform() {
    let scraper = DocumentationScraperRust::new("ReadTheDocs", 1000, 10);
    assert_eq!(scraper.platform, "readthedocs");
    assert_eq!(scraper.delay_ms, 1000);
    assert_eq!(scraper.max_concurrent, 10);
    let config = scraper.config();
    assert_eq!(config.content_selector, "[role=\"main\"]");
    assert_eq!(config.navigation_selector, ".toctree-l1 a");
}

#[test]
fn unknown_platform_gets_generic_profile() {
    let config = lookup("docusaurus");
    assert_eq!(config.content_selector, "main, .content, .documentation");
    assert_eq!(config.title_selector, "h1");
    assert_eq!(config.code_selector, "pre, code");
    assert_eq!(config.navigation_selector, "nav a, .toc a");
    assert!(config.api_selector.is_none());

    let swagger = lookup("swagger");
    assert_eq!(swagger.api_selector.as_deref(), Some(".opblock"));
}

#[test]
fn analyze_empty_page_list_is_empty() {
    assert!(analyze_documentation(&Vec::new()).is_empty());
}

fn table_count(value: &StatValue, key: &str) -> Option<usize> {
    match value {
        StatValue::Table(entries) => {
            entries.iter().find(|e| e.key == key).map(|e| e.count)
        }
        StatValue::Count(_) => None,
    }
}

#[test]
fn analyze_counts_sections_tags_and_averages() {
    let mut first = page("https://d/1", "abcd", Some("Guide"), &["api", "tutorial"]);
    first.code_examples.push(doc_scraper::page::CodeExample {
        language: "python".to_string(),
        code: "print('hello')".to_string(),
        description: None,
    });
    first.code_examples.push(doc_scraper::page::CodeExample {
        language: "python".to_string(),
        code: "print('again')".to_string(),
        description: None,
    });
    let second = page("https://d/2", "abcdef", Some("Guide"), &["api"]);
    let third = page("https://d/3", "ab", None, &[]);
    let pages = vec![first, second, third];

    let stats = analyze_documentation(&pages);
    assert_eq!(stats.len(), 7);
    assert_eq!(stats[0].name, "total_pages");
    assert!(matches!(stats[0].value, StatValue::Count(3)));
    assert_eq!(stats[1].name, "sections");
    assert_eq!(table_count(&stats[1].value, "Guide"), Some(2));
    assert_eq!(stats[2].name, "tags");
    assert_eq!(table_count(&stats[2].value, "api"), Some(2));
    assert_eq!(table_count(&stats[2].value, "tutorial"), Some(1));
    assert_eq!(stats[3].name, "total_code_examples");
    assert!(matches!(stats[3].value, StatValue::Count(2)));
    assert_eq!(stats[4].name, "programming_languages");
    assert_eq!(table_count(&stats[4].value, "python"), Some(2));
    assert_eq!(stats[5].name, "total_api_endpoints");
    assert!(matches!(stats[5].value, StatValue::Count(0)));
    assert_eq!(stats[6].name, "avg_content_length");
    assert!(matches!(stats[6].value, StatValue::Count(4)));
}

#[test]
fn default_filename_has_platform_and_timestamp() {
    let name = doc_scraper::report::default_results_filename("sphinx", 1700000000);
    assert_eq!(name, "documentation_scrape_sphinx_1700000000.json");
    let zero = doc_scraper::report::default_results_filename("generic", 0);
    assert_eq!(zero, "documentation_scrape_generic_0.json");
}
