//! The extraction-profile registry: a fixed mapping from platform key to
//! the structural selectors that platform uses, with a generic fallback.
use vstd::prelude::*;

verus! {

/// The selectors one documentation platform places its content under.
#[derive(Debug, Clone)]
pub struct PlatformConfig {
    pub content_selector: String,
    pub title_selector: String,
    pub code_selector: String,
    pub navigation_selector: String,
    pub api_selector: Option<String>,
}

/// The selector values of a profile, as character sequences.
pub type ConfigV = (Seq<char>, Seq<char>, Seq<char>, Seq<char>, Option<Seq<char>>);

pub open spec fn config_view(c: &PlatformConfig) -> ConfigV {
    (
        c.content_selector@,
        c.title_selector@,
        c.code_selector@,
        c.navigation_selector@,
        match c.api_selector {
            Some(s) => Some(s@),
            None => None,
        },
    )
}

pub open spec fn generic_config_spec() -> ConfigV {
    ("main, .content, .documentation"@, "h1"@, "pre, code"@, "nav a, .toc a"@, None)
}

/// The profile the registry returns for a platform key: one of the four
/// known platforms, or the generic fallback for every other key.
pub open spec fn spec_config(key: Seq<char>) -> ConfigV {
    if key == "gitbook"@ {
        (".page-inner"@, "h1"@, "pre code"@, ".summary a"@, None)
    } else if key == "readthedocs"@ {
        ("[role=\"main\"]"@, "h1"@, ".highlight pre"@, ".toctree-l1 a"@, None)
    } else if key == "swagger"@ {
        (".swagger-ui"@, "h1"@, ".example pre"@, ".operations-tag a"@, Some(".opblock"@))
    } else if key == "sphinx"@ {
        (".body"@, "h1"@, ".highlight pre"@, ".toctree-l1 a"@, None)
    } else {
        generic_config_spec()
    }
}

/// The platform keys that have an entry of their own.
pub open spec fn known_keys() -> Seq<Seq<char>> {
    seq!["gitbook"@, "readthedocs"@, "swagger"@, "sphinx"@, "generic"@]
}

/// Any platform key without an entry of its own falls back to the
/// generic profile: lookup never fails and never yields an unset profile.
pub proof fn lemma_lookup_unknown_is_generic(key: Seq<char>)
    requires
        !known_keys().contains(key),
    ensures
        spec_config(key) == generic_config_spec(),
{
    assert(known_keys()[0] == "gitbook"@);
    assert(known_keys()[1] == "readthedocs"@);
    assert(known_keys()[2] == "swagger"@);
    assert(known_keys()[3] == "sphinx"@);
    assert(known_keys()[4] == "generic"@);
}

/// Looks a platform key up in the registry, falling back to the generic
/// profile when the key has no entry.
pub fn lookup(platform: &str) -> (c: PlatformConfig)
    ensures
        config_view(&c) == spec_config(platform@),
{
    let p = platform.to_owned();
    if p == String::from_str("gitbook") {
        PlatformConfig {
            content_selector: String::from_str(".page-inner"),
            title_selector: String::from_str("h1"),
            code_selector: String::from_str("pre code"),
            navigation_selector: String::from_str(".summary a"),
            api_selector: None,
        }
    } else if p == String::from_str("readthedocs") {
        PlatformConfig {
            content_selector: String::from_str("[role=\"main\"]"),
            title_selector: String::from_str("h1"),
            code_selector: String::from_str(".highlight pre"),
            navigation_selector: String::from_str(".toctree-l1 a"),
            api_selector: None,
        }
    } else if p == String::from_str("swagger") {
        PlatformConfig {
            content_selector: String::from_str(".swagger-ui"),
            title_selector: String::from_str("h1"),
            code_selector: String::from_str(".example pre"),
            navigation_selector: String::from_str(".operations-tag a"),
            api_selector: Some(String::from_str(".opblock")),
        }
    } else if p == String::from_str("sphinx") {
        PlatformConfig {
            content_selector: String::from_str(".body"),
            title_selector: String::from_str("h1"),
            code_selector: String::from_str(".highlight pre"),
            navigation_selector: String::from_str(".toctree-l1 a"),
            api_selector: None,
        }
    } else {
        PlatformConfig {
            content_selector: String::from_str("main, .content, .documentation"),
            title_selector: String::from_str("h1"),
            code_selector: String::from_str("pre, code"),
            navigation_selector: String::from_str("nav a, .toc a"),
            api_selector: None,
        }
    }
}

} // verus!
