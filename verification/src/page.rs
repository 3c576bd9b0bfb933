//! The structured records one extracted page produces.
use vstd::prelude::*;

verus! {

/// One code sample pulled from a code block, with the language detected
/// from the block's class list and, when one is found, a short
/// description from the paragraph just before it.
#[derive(Debug, Clone)]
pub struct CodeExample {
    pub language: String,
    pub code: String,
    pub description: Option<String>,
}

#[verifier::ext_equal]
pub ghost struct CodeExampleV {
    pub language: Seq<char>,
    pub code: Seq<char>,
    pub description: Option<Seq<char>>,
}

impl View for CodeExample {
    type V = CodeExampleV;

    open spec fn view(&self) -> CodeExampleV {
        CodeExampleV {
            language: self.language@,
            code: self.code@,
            description: self.description.deep_view(),
        }
    }
}

impl DeepView for CodeExample {
    type V = CodeExampleV;

    open spec fn deep_view(&self) -> CodeExampleV {
        self.view()
    }
}

/// One parameter of an API endpoint. Detection of the required flag is
/// not implemented: `required` is always false.
#[derive(Debug, Clone)]
pub struct ApiParameter {
    pub name: String,
    pub param_type: String,
    pub description: String,
    pub required: bool,
}

#[verifier::ext_equal]
pub ghost struct ApiParameterV {
    pub name: Seq<char>,
    pub param_type: Seq<char>,
    pub description: Seq<char>,
    pub required: bool,
}

impl View for ApiParameter {
    type V = ApiParameterV;

    open spec fn view(&self) -> ApiParameterV {
        ApiParameterV {
            name: self.name@,
            param_type: self.param_type@,
            description: self.description@,
            required: self.required,
        }
    }
}

impl DeepView for ApiParameter {
    type V = ApiParameterV;

    open spec fn deep_view(&self) -> ApiParameterV {
        self.view()
    }
}

/// One API endpoint description pulled from an API block.
#[derive(Debug, Clone)]
pub struct ApiEndpoint {
    pub method: String,
    pub path: String,
    pub description: String,
    pub parameters: Vec<ApiParameter>,
    pub response_format: Option<String>,
    pub code_examples: Vec<CodeExample>,
}

#[verifier::ext_equal]
pub ghost struct ApiEndpointV {
    pub method: Seq<char>,
    pub path: Seq<char>,
    pub description: Seq<char>,
    pub parameters: Seq<ApiParameterV>,
    pub response_format: Option<Seq<char>>,
    pub code_examples: Seq<CodeExampleV>,
}

impl View for ApiEndpoint {
    type V = ApiEndpointV;

    open spec fn view(&self) -> ApiEndpointV {
        ApiEndpointV {
            method: self.method@,
            path: self.path@,
            description: self.description@,
            parameters: self.parameters.deep_view(),
            response_format: self.response_format.deep_view(),
            code_examples: self.code_examples.deep_view(),
        }
    }
}

impl DeepView for ApiEndpoint {
    type V = ApiEndpointV;

    open spec fn deep_view(&self) -> ApiEndpointV {
        self.view()
    }
}

/// The record one successfully extracted page yields.
#[derive(Debug, Clone)]
pub struct DocumentationPage {
    pub url: String,
    pub title: String,
    pub content: String,
    pub section: Option<String>,
    pub subsection: Option<String>,
    pub api_endpoints: Vec<ApiEndpoint>,
    pub code_examples: Vec<CodeExample>,
    pub last_updated: Option<String>,
    pub tags: Vec<String>,
    pub scraped_at: String,
}

#[verifier::ext_equal]
pub ghost struct PageV {
    pub url: Seq<char>,
    pub title: Seq<char>,
    pub content: Seq<char>,
    pub section: Option<Seq<char>>,
    pub subsection: Option<Seq<char>>,
    pub api_endpoints: Seq<ApiEndpointV>,
    pub code_examples: Seq<CodeExampleV>,
    pub last_updated: Option<Seq<char>>,
    pub tags: Seq<Seq<char>>,
    pub scraped_at: Seq<char>,
}

impl View for DocumentationPage {
    type V = PageV;

    open spec fn view(&self) -> PageV {
        PageV {
            url: self.url@,
            title: self.title@,
            content: self.content@,
            section: self.section.deep_view(),
            subsection: self.subsection.deep_view(),
            api_endpoints: self.api_endpoints.deep_view(),
            code_examples: self.code_examples.deep_view(),
            last_updated: self.last_updated.deep_view(),
            tags: self.tags.deep_view(),
            scraped_at: self.scraped_at@,
        }
    }
}

impl DeepView for DocumentationPage {
    type V = PageV;

    open spec fn deep_view(&self) -> PageV {
        self.view()
    }
}

} // verus!
