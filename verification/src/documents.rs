//! The documents that request and scenario files hold, and their conversions.
use vstd::prelude::*;
use crate::config::{
    param_from_text, param_text, ApiRequest, DataPart, FileUpload, NameValue, ParamView,
    PartView, RequestOverride, RequestParam, ResponseExtract, WorkspaceConfiguration,
};
use crate::text::{copy_str, join, join_strs, starts_with, strip_prefix_str, views};
use crate::variables::{definition_document, spec_definition, RawVariableDefinition};

verus! {

/// A request file as written: a name, a method, a URL and the request's parts.
pub struct RequestDocument {
    pub name: String,
    pub description: String,
    pub method: String,
    pub url: String,
    pub timeout: Option<u64>,
    pub skip_ssl_verification: Option<bool>,
    pub headers: Vec<NameValue>,
    pub params: Vec<RequestParam>,
    pub body: Option<String>,
    pub form: Vec<RequestParam>,
    pub files: Vec<FileUpload>,
    pub extracts: Vec<ResponseExtract>,
}

/// A request override as a scenario file writes it.
pub struct RequestOverrideDocument {
    pub method: Option<String>,
    pub url: Option<String>,
    pub timeout: Option<u64>,
    pub skip_ssl_verification: Option<bool>,
    pub headers: Option<Vec<NameValue>>,
    pub params: Option<Vec<RequestParam>>,
    pub body: Option<String>,
    pub form: Option<Vec<RequestParam>>,
    pub files: Option<Vec<FileUpload>>,
    pub extracts: Option<Vec<ResponseExtract>>,
}

/// A scenario file: shared headers, defaults and the overrides keyed by request path.
pub struct ConfigurationDocument {
    pub variables: Vec<(String, Option<RawVariableDefinition>)>,
    pub headers: Vec<NameValue>,
    pub timeout: Option<u64>,
    pub skip_ssl_verification: Option<bool>,
    pub overrides: Vec<(String, RequestOverrideDocument)>,
}

/// The text that one body or query part stands for.
pub open spec fn part_text(p: PartView) -> Seq<char> {
    match p {
        PartView::Raw(value) => value,
        PartView::UrlEncoded(param) => param_text(param),
    }
}

/// The parameter that one query part stands for.
pub open spec fn part_param(p: PartView) -> ParamView {
    match p {
        PartView::Raw(value) => param_from_text(value),
        PartView::UrlEncoded(param) => param,
    }
}

/// The body text of some parts: none when there are no parts, else their texts joined by `&`.
pub open spec fn parts_body(parts: Seq<PartView>) -> Option<Seq<char>> {
    if parts.len() == 0 {
        None
    } else {
        Some(join(parts.map_values(|p: PartView| part_text(p)), seq!['&']))
    }
}

pub fn request_param_from_part(part: &DataPart) -> (r: RequestParam)
    ensures
        r@ == part_param(part@),
{
    match part {
        DataPart::Raw(value) => RequestParam::from_text(value.as_str()),
        DataPart::UrlEncoded(parameter) => parameter.clone(),
    }
}

pub fn part_text_of(part: &DataPart) -> (r: String)
    ensures
        r@ == part_text(part@),
{
    match part {
        DataPart::Raw(value) => value.clone(),
        DataPart::UrlEncoded(parameter) => parameter.to_text(),
    }
}

pub fn params_from_parts(parts: &[DataPart]) -> (r: Vec<RequestParam>)
    ensures
        r.deep_view() == parts.deep_view().map_values(|p: PartView| part_param(p)),
{
    let mut out: Vec<RequestParam> = Vec::new();
    let mut i: usize = 0;
    while i < parts.len()
        invariant
            i <= parts@.len(),
            out@.len() == i,
            forall|j: int| 0 <= j < i ==> #[trigger] out@[j]@ == part_param(parts@[j]@),
        decreases parts@.len() - i,
    {
        out.push(request_param_from_part(&parts[i]));
        i = i + 1;
    }
    assert(out.deep_view() =~= parts.deep_view().map_values(|p: PartView| part_param(p)));
    out
}

pub fn body_text(parts: &[DataPart]) -> (r: Option<String>)
    ensures
        r.deep_view() == parts_body(parts.deep_view()),
{
    if parts.len() == 0 {
        return None;
    }
    let mut texts: Vec<String> = Vec::new();
    let mut i: usize = 0;
    while i < parts.len()
        invariant
            i <= parts@.len(),
            texts@.len() == i,
            forall|j: int| 0 <= j < i ==> #[trigger] texts@[j]@ == part_text(parts@[j]@),
        decreases parts@.len() - i,
    {
        texts.push(part_text_of(&parts[i]));
        i = i + 1;
    }
    assert(views(texts@) =~= parts.deep_view().map_values(|p: PartView| part_text(p)));
    proof {
        reveal_strlit("&");
        assert("&"@ =~= seq!['&']);
    }
    Some(join_strs(texts.as_slice(), "&"))
}

pub fn default_method() -> (r: String)
    ensures
        r@ == "GET"@,
{
    "GET".to_owned()
}

pub fn is_default_method(method: &str) -> (r: bool)
    ensures
        r == (method@ == "GET"@),
{
    crate::text::eq_str(method, "GET")
}

pub fn default_timeout_seconds() -> (r: u64)
    ensures
        r == 30,
{
    30
}

pub fn default_upload_directory() -> (r: String)
    ensures
        r@ == "test_files"@,
{
    "test_files".to_owned()
}

pub fn default_download_directory() -> (r: String)
    ensures
        r@ == "temp"@,
{
    "temp".to_owned()
}

impl RequestDocument {
    /// The document that writes `request` back to its file.
    pub fn from_request(request: &ApiRequest) -> (r: RequestDocument)
        ensures
            r.name == request.name,
            r.description == request.description,
            r.method == request.method,
            r.url == request.url,
            r.timeout == Some(request.timeout_seconds),
            r.skip_ssl_verification == Some(request.skip_ssl_verification),
            r.headers@ == request.headers@,
            r.params.deep_view() == request.query_parts.deep_view().map_values(
                |p: PartView| part_param(p),
            ),
            r.body.deep_view() == parts_body(request.body_parts.deep_view()),
            r.form@ == request.form@,
            r.files@ == request.files@,
            r.extracts@ == request.extracts@,
    {
        RequestDocument {
            name: request.name.clone(),
            description: request.description.clone(),
            method: request.method.clone(),
            url: request.url.clone(),
            timeout: Some(request.timeout_seconds),
            skip_ssl_verification: Some(request.skip_ssl_verification),
            headers: request.headers.clone(),
            params: params_from_parts(request.query_parts.as_slice()),
            body: body_text(request.body_parts.as_slice()),
            form: request.form.clone(),
            files: request.files.clone(),
            extracts: request.extracts.clone(),
        }
    }
}

impl RequestOverrideDocument {
    /// The document that writes `request_override` to a scenario file. A body override
    /// with no parts is written as an empty body.
    pub fn from_override(request_override: &RequestOverride) -> (r: RequestOverrideDocument)
        ensures
            r.method == request_override.method,
            r.url == request_override.url,
            r.timeout == request_override.timeout_seconds,
            r.skip_ssl_verification == request_override.skip_ssl_verification,
            r.headers is Some <==> request_override.headers is Some,
            r.headers is Some ==> r.headers->0@ == request_override.headers->0@,
            r.params is Some <==> request_override.query_parts is Some,
            r.params is Some ==> r.params->0.deep_view()
                == request_override.query_parts->0.deep_view().map_values(
                |p: PartView| part_param(p),
            ),
            r.body is Some <==> request_override.body_parts is Some,
            r.body is Some ==> r.body->0@ == (match parts_body(
                request_override.body_parts->0.deep_view(),
            ) {
                Some(text) => text,
                None => Seq::empty(),
            }),
            r.form is Some <==> request_override.form is Some,
            r.form is Some ==> r.form->0@ == request_override.form->0@,
            r.files is Some <==> request_override.files is Some,
            r.files is Some ==> r.files->0@ == request_override.files->0@,
            r.extracts is Some <==> request_override.extracts is Some,
            r.extracts is Some ==> r.extracts->0@ == request_override.extracts->0@,
    {
        RequestOverrideDocument {
            method: crate::config::clone_opt_string(&request_override.method),
            url: crate::config::clone_opt_string(&request_override.url),
            timeout: request_override.timeout_seconds,
            skip_ssl_verification: request_override.skip_ssl_verification,
            headers: match &request_override.headers {
                Some(v) => Some(v.clone()),
                None => None,
            },
            params: match &request_override.query_parts {
                Some(parts) => Some(params_from_parts(parts.as_slice())),
                None => None,
            },
            body: match &request_override.body_parts {
                Some(parts) => match body_text(parts.as_slice()) {
                    Some(text) => Some(text),
                    None => Some(String::new()),
                },
                None => None,
            },
            form: match &request_override.form {
                Some(v) => Some(v.clone()),
                None => None,
            },
            files: match &request_override.files {
                Some(v) => Some(v.clone()),
                None => None,
            },
            extracts: match &request_override.extracts {
                Some(v) => Some(v.clone()),
                None => None,
            },
        }
    }
}

impl ConfigurationDocument {
    /// The document that writes one scenario; override keys lose their `requests/` root.
    pub fn from_configuration(configuration: &WorkspaceConfiguration) -> (r: ConfigurationDocument)
        requires
            forall|i: int|
                0 <= i < configuration.request_overrides@.len() ==> starts_with(
                    #[trigger] configuration.request_overrides@[i].0@,
                    "requests/"@,
                ),
        ensures
            r.variables@.len() == configuration.variables@.len(),
            forall|i: int| 0 <= i < r.variables@.len() ==> (#[trigger] r.variables@[i]).0@ == configuration.variables@[i].0@
                && spec_definition(r.variables@[i].1) == configuration.variables@[i].1.deep_view(),
            r.headers@ == configuration.headers@,
            r.timeout == configuration.timeout_seconds,
            r.skip_ssl_verification == configuration.skip_ssl_verification,
            r.overrides@.len() == configuration.request_overrides@.len(),
            forall|i: int|
                0 <= i < r.overrides@.len() ==> #[trigger] r.overrides@[i].0@
                    == configuration.request_overrides@[i].0@.skip("requests/"@.len() as int),
    {
        let mut overrides: Vec<(String, RequestOverrideDocument)> = Vec::new();
        let mut i: usize = 0;
        while i < configuration.request_overrides.len()
            invariant
                i <= configuration.request_overrides@.len(),
                overrides@.len() == i,
                forall|j: int|
                    0 <= j < configuration.request_overrides@.len() ==> starts_with(
                        #[trigger] configuration.request_overrides@[j].0@,
                        "requests/"@,
                    ),
                forall|j: int|
                    0 <= j < i ==> #[trigger] overrides@[j].0@
                        == configuration.request_overrides@[j].0@.skip("requests/"@.len() as int),
            decreases configuration.request_overrides@.len() - i,
        {
            let entry = &configuration.request_overrides[i];
            assert(starts_with(configuration.request_overrides@[i as int].0@, "requests/"@));
            let key = match strip_prefix_str(entry.0.as_str(), "requests/") {
                Some(key) => key,
                None => String::new(),
            };
            overrides.push((key, RequestOverrideDocument::from_override(&entry.1)));
            i = i + 1;
        }
        let mut variables: Vec<(String, Option<RawVariableDefinition>)> = Vec::new();
        let mut k: usize = 0;
        while k < configuration.variables.len()
            invariant
                k <= configuration.variables@.len(),
                variables@.len() == k,
                forall|j: int| 0 <= j < k ==> (#[trigger] variables@[j]).0@ == configuration.variables@[j].0@
                    && spec_definition(variables@[j].1) == configuration.variables@[j].1.deep_view(),
            decreases configuration.variables@.len() - k,
        {
            let entry = &configuration.variables[k];
            variables.push((copy_str(entry.0.as_str()), Some(definition_document(&entry.1))));
            k = k + 1;
        }
        ConfigurationDocument {
            variables,
            headers: configuration.headers.clone(),
            timeout: configuration.timeout_seconds,
            skip_ssl_verification: configuration.skip_ssl_verification,
            overrides,
        }
    }
}

} // verus!
