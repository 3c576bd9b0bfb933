//! Extraction of API endpoint descriptions from the blocks the profile's
//! API selector matched (only Swagger-style profiles define one).
use crate::model::{ApiBlock, Elem, ParamBlock};
use crate::page::{ApiEndpoint, ApiEndpointV, ApiParameter, ApiParameterV, CodeExample,
    CodeExampleV};
use crate::profiles::PlatformConfig;
use crate::text::{concat_seqs, trim_spec, trimmed_concat, upper_of, upper_str};
use vstd::prelude::*;

verus! {

/// The element's text nodes concatenated and trimmed.
pub open spec fn trimmed_concat_of(e: Elem) -> Seq<char> {
    trim_spec(concat_seqs(e.texts.deep_view()))
}

/// The parameter a parameter block yields: nothing without a name
/// element; otherwise its trimmed name, its type (default "string"),
/// its description (default empty), and `required` always false.
pub open spec fn param_spec(p: ParamBlock) -> Option<ApiParameterV> {
    match p.name {
        Some(n) => Some(
            ApiParameterV {
                name: trimmed_concat_of(n),
                param_type: match p.ptype {
                    Some(t) => trimmed_concat_of(t),
                    None => "string"@,
                },
                description: match p.desc {
                    Some(d) => trimmed_concat_of(d),
                    None => Seq::<char>::empty(),
                },
                required: false,
            },
        ),
        None => None,
    }
}

pub open spec fn params_spec(ps: Seq<ParamBlock>) -> Seq<ApiParameterV>
    decreases ps.len(),
{
    if ps.len() == 0 {
        Seq::<ApiParameterV>::empty()
    } else {
        match param_spec(ps[0]) {
            Some(p) => seq![p] + params_spec(ps.drop_first()),
            None => params_spec(ps.drop_first()),
        }
    }
}

/// The code example an example-code element inside an API block yields:
/// nothing when its trimmed text is empty, otherwise the text under the
/// fixed language "json" with a fixed description.
pub open spec fn api_example_spec(e: Elem) -> Option<CodeExampleV> {
    let code = trimmed_concat_of(e);
    if code.len() == 0 {
        None
    } else {
        Some(CodeExampleV { language: "json"@, code, description: Some("API response example"@) })
    }
}

pub open spec fn api_examples_spec(es: Seq<Elem>) -> Seq<CodeExampleV>
    decreases es.len(),
{
    if es.len() == 0 {
        Seq::<CodeExampleV>::empty()
    } else {
        match api_example_spec(es[0]) {
            Some(c) => seq![c] + api_examples_spec(es.drop_first()),
            None => api_examples_spec(es.drop_first()),
        }
    }
}

/// The endpoint an API block yields: nothing unless both a method and a
/// path element are present (those two are mandatory); otherwise the
/// uppercased method, the trimmed path, the description (default empty),
/// the parameters and the example code, in order.
pub open spec fn endpoint_spec(b: ApiBlock) -> Option<ApiEndpointV> {
    match b.method {
        Some(m) => match b.path {
            Some(pa) => Some(
                ApiEndpointV {
                    method: upper_of(trimmed_concat_of(m)),
                    path: trimmed_concat_of(pa),
                    description: match b.desc {
                        Some(d) => trimmed_concat_of(d),
                        None => Seq::<char>::empty(),
                    },
                    parameters: params_spec(b.params@),
                    response_format: None,
                    code_examples: api_examples_spec(b.examples@),
                },
            ),
            None => None,
        },
        None => None,
    }
}

pub open spec fn endpoints_spec(bs: Seq<ApiBlock>) -> Seq<ApiEndpointV>
    decreases bs.len(),
{
    if bs.len() == 0 {
        Seq::<ApiEndpointV>::empty()
    } else {
        match endpoint_spec(bs[0]) {
            Some(e) => seq![e] + endpoints_spec(bs.drop_first()),
            None => endpoints_spec(bs.drop_first()),
        }
    }
}

/// Reads one parameter block; a block without a name element is skipped.
pub fn parse_api_parameter(p: &ParamBlock) -> (r: Option<ApiParameter>)
    ensures
        r.deep_view() == param_spec(*p),
{
    match &p.name {
        Some(n) => {
            let name = trimmed_concat(&n.texts);
            let param_type = match &p.ptype {
                Some(t) => trimmed_concat(&t.texts),
                None => String::from_str("string"),
            };
            let description = match &p.desc {
                Some(d) => trimmed_concat(&d.texts),
                None => String::new(),
            };
            let out = ApiParameter { name, param_type, description, required: false };
            proof {
                assert(Some(out).deep_view() =~~= param_spec(*p));
            }
            Some(out)
        },
        None => None,
    }
}

/// Reads one API block; a block that yields no method or no path is
/// dropped entirely.
pub fn parse_api_endpoint(b: &ApiBlock) -> (r: Option<ApiEndpoint>)
    ensures
        r.deep_view() == endpoint_spec(*b),
{
    let method_elem = match &b.method {
        Some(m) => m,
        None => {
            return None;
        },
    };
    let path_elem = match &b.path {
        Some(pa) => pa,
        None => {
            return None;
        },
    };
    let method_trimmed = trimmed_concat(&method_elem.texts);
    let method = upper_str(method_trimmed.as_str());
    let path = trimmed_concat(&path_elem.texts);
    let description = match &b.desc {
        Some(d) => trimmed_concat(&d.texts),
        None => String::new(),
    };

    let mut parameters: Vec<ApiParameter> = Vec::new();
    let mut i: usize = 0;
    proof {
        assert(b.params@.skip(0) =~= b.params@);
        assert(parameters.deep_view() + params_spec(b.params@) =~= params_spec(b.params@));
    }
    while i < b.params.len()
        invariant
            i <= b.params.len(),
            parameters.deep_view() + params_spec(b.params@.skip(i as int)) == params_spec(
                b.params@,
            ),
        decreases b.params.len() - i,
    {
        proof {
            assert(b.params@.skip(i as int)[0] == b.params@[i as int]);
            assert(b.params@.skip(i as int).drop_first() =~= b.params@.skip(i as int + 1));
        }
        let ghost old_ps = parameters.deep_view();
        if let Some(p) = parse_api_parameter(&b.params[i]) {
            parameters.push(p);
            proof {
                assert(parameters.deep_view() =~= old_ps.push(
                    param_spec(b.params@[i as int]).unwrap(),
                ));
                assert(old_ps.push(param_spec(b.params@[i as int]).unwrap()) + params_spec(
                    b.params@.skip(i as int + 1),
                ) =~= old_ps + (seq![param_spec(b.params@[i as int]).unwrap()] + params_spec(
                    b.params@.skip(i as int + 1),
                )));
            }
        }
        i = i + 1;
    }
    proof {
        assert(b.params@.skip(b.params.len() as int) =~= Seq::<ParamBlock>::empty());
        assert(parameters.deep_view() + Seq::<ApiParameterV>::empty() =~= parameters.deep_view());
    }

    let mut code_examples: Vec<CodeExample> = Vec::new();
    let mut j: usize = 0;
    proof {
        assert(b.examples@.skip(0) =~= b.examples@);
        assert(code_examples.deep_view() + api_examples_spec(b.examples@) =~= api_examples_spec(
            b.examples@,
        ));
    }
    while j < b.examples.len()
        invariant
            j <= b.examples.len(),
            code_examples.deep_view() + api_examples_spec(b.examples@.skip(j as int))
                == api_examples_spec(b.examples@),
        decreases b.examples.len() - j,
    {
        proof {
            assert(b.examples@.skip(j as int)[0] == b.examples@[j as int]);
            assert(b.examples@.skip(j as int).drop_first() =~= b.examples@.skip(j as int + 1));
        }
        let ghost old_ces = code_examples.deep_view();
        let code = trimmed_concat(&b.examples[j].texts);
        if code.as_str().is_empty() {
        } else {
            let ce = CodeExample {
                language: String::from_str("json"),
                code,
                description: Some(String::from_str("API response example")),
            };
            proof {
                assert(ce@ =~~= api_example_spec(b.examples@[j as int]).unwrap());
            }
            code_examples.push(ce);
            proof {
                assert(code_examples.deep_view() =~= old_ces.push(
                    api_example_spec(b.examples@[j as int]).unwrap(),
                ));
                assert(old_ces.push(api_example_spec(b.examples@[j as int]).unwrap())
                    + api_examples_spec(b.examples@.skip(j as int + 1)) =~= old_ces + (seq![
                    api_example_spec(b.examples@[j as int]).unwrap()] + api_examples_spec(
                    b.examples@.skip(j as int + 1),
                )));
            }
        }
        j = j + 1;
    }
    proof {
        assert(b.examples@.skip(b.examples.len() as int) =~= Seq::<Elem>::empty());
        assert(code_examples.deep_view() + Seq::<CodeExampleV>::empty()
            =~= code_examples.deep_view());
    }

    let out = ApiEndpoint { method, path, description, parameters, response_format: None, code_examples };
    proof {
        assert(Some(out).deep_view() =~~= endpoint_spec(*b));
    }
    Some(out)
}

/// The endpoints a page yields: nothing at all unless the active profile
/// defines an API selector, else every block's endpoint in block order.
pub open spec fn page_endpoints_spec(blocks: Seq<ApiBlock>, api_selector: Option<Seq<char>>) -> Seq<
    ApiEndpointV,
> {
    match api_selector {
        Some(_) => endpoints_spec(blocks),
        None => Seq::<ApiEndpointV>::empty(),
    }
}

/// Reads every API block of a page, when the profile defines an API
/// selector; otherwise yields no endpoints at all.
pub fn extract_api_endpoints(blocks: &Vec<ApiBlock>, config: &PlatformConfig) -> (r: Vec<
    ApiEndpoint,
>)
    ensures
        r.deep_view() == page_endpoints_spec(
            blocks@,
            crate::profiles::config_view(config).4,
        ),
{
    let mut out: Vec<ApiEndpoint> = Vec::new();
    if config.api_selector.is_none() {
        proof {
            assert(out.deep_view() =~= Seq::<ApiEndpointV>::empty());
        }
        return out;
    }
    let mut i: usize = 0;
    proof {
        assert(blocks@.skip(0) =~= blocks@);
        assert(out.deep_view() + endpoints_spec(blocks@) =~= endpoints_spec(blocks@));
    }
    while i < blocks.len()
        invariant
            i <= blocks.len(),
            out.deep_view() + endpoints_spec(blocks@.skip(i as int)) == endpoints_spec(blocks@),
        decreases blocks.len() - i,
    {
        proof {
            assert(blocks@.skip(i as int)[0] == blocks@[i as int]);
            assert(blocks@.skip(i as int).drop_first() =~= blocks@.skip(i as int + 1));
        }
        let ghost old_out = out.deep_view();
        if let Some(e) = parse_api_endpoint(&blocks[i]) {
            out.push(e);
            proof {
                assert(out.deep_view() =~= old_out.push(endpoint_spec(blocks@[i as int]).unwrap()));
                assert(old_out.push(endpoint_spec(blocks@[i as int]).unwrap()) + endpoints_spec(
                    blocks@.skip(i as int + 1),
                ) =~= old_out + (seq![endpoint_spec(blocks@[i as int]).unwrap()] + endpoints_spec(
                    blocks@.skip(i as int + 1),
                )));
            }
        }
        i = i + 1;
    }
    proof {
        assert(blocks@.skip(blocks.len() as int) =~= Seq::<ApiBlock>::empty());
        assert(out.deep_view() + Seq::<ApiEndpointV>::empty() =~= out.deep_view());
    }
    out
}

} // verus!
