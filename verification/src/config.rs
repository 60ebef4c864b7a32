//! The request model: requests, their parts and scenario overrides.
use vstd::prelude::*;
use crate::keyed::stash_view;
use crate::text::{copy_str, eq_str, push_char, push_str, split_once, split_once_str};
use crate::variables::{DefinitionView, VariableDefinition};

verus! {

/// One header or other name/value pair.
pub struct NameValue {
    pub name: String,
    pub value: String,
}

/// An ordered request parameter. `has_equals` tells `flag` from `flag=`.
pub struct RequestParam {
    pub name: String,
    pub value: String,
    pub has_equals: bool,
}

/// A piece of a body or of URL-encoded parameters; URL-encoded pieces keep the
/// logical parameter and are encoded when sent.
pub enum DataPart {
    Raw(String),
    UrlEncoded(RequestParam),
}

pub struct FileUpload {
    pub field: String,
    pub path: String,
    pub filename: Option<String>,
    pub content_type: Option<String>,
}

pub struct ResponseExtract {
    pub variable: String,
    pub path: String,
}

pub struct ApiRequest {
    pub id: String,
    pub name: String,
    pub method: String,
    pub url: String,
    pub timeout_seconds: u64,
    pub skip_ssl_verification: bool,
    pub description: String,
    pub headers: Vec<NameValue>,
    pub body_parts: Vec<DataPart>,
    pub query_parts: Vec<DataPart>,
    pub form: Vec<RequestParam>,
    pub files: Vec<FileUpload>,
    pub extracts: Vec<ResponseExtract>,
}

/// The fields that one scenario changes in one request.
pub struct RequestOverride {
    pub method: Option<String>,
    pub url: Option<String>,
    pub timeout_seconds: Option<u64>,
    pub skip_ssl_verification: Option<bool>,
    pub headers: Option<Vec<NameValue>>,
    pub query_parts: Option<Vec<DataPart>>,
    pub body_parts: Option<Vec<DataPart>>,
    pub form: Option<Vec<RequestParam>>,
    pub files: Option<Vec<FileUpload>>,
    pub extracts: Option<Vec<ResponseExtract>>,
}

/// One scenario: its file, variables, headers, defaults and per-request overrides.
/// `request_overrides` is ordered by request id and holds each id once; `variables` holds
/// each name once.
pub struct WorkspaceConfiguration {
    pub path: Option<String>,
    pub variables: Vec<(String, VariableDefinition)>,
    pub headers: Vec<NameValue>,
    pub timeout_seconds: Option<u64>,
    pub skip_ssl_verification: Option<bool>,
    pub request_overrides: Vec<(String, RequestOverride)>,
}

pub struct ParamView {
    pub name: Seq<char>,
    pub value: Seq<char>,
    pub has_equals: bool,
}

pub enum PartView {
    Raw(Seq<char>),
    UrlEncoded(ParamView),
}

pub struct FileView {
    pub field: Seq<char>,
    pub path: Seq<char>,
    pub filename: Option<Seq<char>>,
    pub content_type: Option<Seq<char>>,
}

impl View for NameValue {
    type V = (Seq<char>, Seq<char>);

    open spec fn view(&self) -> (Seq<char>, Seq<char>) {
        (self.name@, self.value@)
    }
}

impl DeepView for NameValue {
    type V = (Seq<char>, Seq<char>);

    open spec fn deep_view(&self) -> (Seq<char>, Seq<char>) {
        self@
    }
}

impl View for RequestParam {
    type V = ParamView;

    open spec fn view(&self) -> ParamView {
        ParamView { name: self.name@, value: self.value@, has_equals: self.has_equals }
    }
}

impl DeepView for RequestParam {
    type V = ParamView;

    open spec fn deep_view(&self) -> ParamView {
        self@
    }
}

impl View for DataPart {
    type V = PartView;

    open spec fn view(&self) -> PartView {
        match self {
            DataPart::Raw(value) => PartView::Raw(value@),
            DataPart::UrlEncoded(param) => PartView::UrlEncoded(param@),
        }
    }
}

impl DeepView for DataPart {
    type V = PartView;

    open spec fn deep_view(&self) -> PartView {
        self@
    }
}

impl View for FileUpload {
    type V = FileView;

    open spec fn view(&self) -> FileView {
        FileView {
            field: self.field@,
            path: self.path@,
            filename: self.filename.deep_view(),
            content_type: self.content_type.deep_view(),
        }
    }
}

impl DeepView for FileUpload {
    type V = FileView;

    open spec fn deep_view(&self) -> FileView {
        self@
    }
}

impl View for ResponseExtract {
    type V = (Seq<char>, Seq<char>);

    open spec fn view(&self) -> (Seq<char>, Seq<char>) {
        (self.variable@, self.path@)
    }
}

impl DeepView for ResponseExtract {
    type V = (Seq<char>, Seq<char>);

    open spec fn deep_view(&self) -> (Seq<char>, Seq<char>) {
        self@
    }
}

/// A request as values: its fields, each by its view.
pub struct RequestView {
    pub id: Seq<char>,
    pub name: Seq<char>,
    pub method: Seq<char>,
    pub url: Seq<char>,
    pub timeout_seconds: u64,
    pub skip_ssl_verification: bool,
    pub description: Seq<char>,
    pub headers: Seq<(Seq<char>, Seq<char>)>,
    pub body_parts: Seq<PartView>,
    pub query_parts: Seq<PartView>,
    pub form: Seq<ParamView>,
    pub files: Seq<FileView>,
    pub extracts: Seq<(Seq<char>, Seq<char>)>,
}

impl View for ApiRequest {
    type V = RequestView;

    open spec fn view(&self) -> RequestView {
        RequestView {
            id: self.id@,
            name: self.name@,
            method: self.method@,
            url: self.url@,
            timeout_seconds: self.timeout_seconds,
            skip_ssl_verification: self.skip_ssl_verification,
            description: self.description@,
            headers: self.headers.deep_view(),
            body_parts: self.body_parts.deep_view(),
            query_parts: self.query_parts.deep_view(),
            form: self.form.deep_view(),
            files: self.files.deep_view(),
            extracts: self.extracts.deep_view(),
        }
    }
}

/// An override as values: each field that it sets, by its view.
pub struct OverrideView {
    pub method: Option<Seq<char>>,
    pub url: Option<Seq<char>>,
    pub timeout_seconds: Option<u64>,
    pub skip_ssl_verification: Option<bool>,
    pub headers: Option<Seq<(Seq<char>, Seq<char>)>>,
    pub query_parts: Option<Seq<PartView>>,
    pub body_parts: Option<Seq<PartView>>,
    pub form: Option<Seq<ParamView>>,
    pub files: Option<Seq<FileView>>,
    pub extracts: Option<Seq<(Seq<char>, Seq<char>)>>,
}

impl View for RequestOverride {
    type V = OverrideView;

    open spec fn view(&self) -> OverrideView {
        OverrideView {
            method: self.method.deep_view(),
            url: self.url.deep_view(),
            timeout_seconds: self.timeout_seconds,
            skip_ssl_verification: self.skip_ssl_verification,
            headers: self.headers.deep_view(),
            query_parts: self.query_parts.deep_view(),
            body_parts: self.body_parts.deep_view(),
            form: self.form.deep_view(),
            files: self.files.deep_view(),
            extracts: self.extracts.deep_view(),
        }
    }
}

/// A scenario as values.
pub struct ConfigurationView {
    pub path: Option<Seq<char>>,
    pub variables: Map<Seq<char>, DefinitionView>,
    pub headers: Seq<(Seq<char>, Seq<char>)>,
    pub timeout_seconds: Option<u64>,
    pub skip_ssl_verification: Option<bool>,
    pub request_overrides: Seq<(Seq<char>, OverrideView)>,
}

impl View for WorkspaceConfiguration {
    type V = ConfigurationView;

    open spec fn view(&self) -> ConfigurationView {
        ConfigurationView {
            path: self.path.deep_view(),
            variables: stash_view(self.variables@),
            headers: self.headers.deep_view(),
            timeout_seconds: self.timeout_seconds,
            skip_ssl_verification: self.skip_ssl_verification,
            request_overrides: self.request_overrides@.map_values(
                |e: (String, RequestOverride)| (e.0@, e.1@),
            ),
        }
    }
}

impl Clone for NameValue {
    fn clone(&self) -> (r: Self)
        ensures
            r == *self,
    {
        NameValue { name: self.name.clone(), value: self.value.clone() }
    }
}

impl Clone for RequestParam {
    fn clone(&self) -> (r: Self)
        ensures
            r == *self,
    {
        RequestParam {
            name: self.name.clone(),
            value: self.value.clone(),
            has_equals: self.has_equals,
        }
    }
}

impl Clone for DataPart {
    fn clone(&self) -> (r: Self)
        ensures
            r == *self,
    {
        match self {
            DataPart::Raw(value) => DataPart::Raw(value.clone()),
            DataPart::UrlEncoded(param) => DataPart::UrlEncoded(param.clone()),
        }
    }
}

pub fn clone_opt_string(value: &Option<String>) -> (r: Option<String>)
    ensures
        r == *value,
{
    match value {
        Some(text) => Some(text.clone()),
        None => None,
    }
}

impl Clone for FileUpload {
    fn clone(&self) -> (r: Self)
        ensures
            r == *self,
    {
        FileUpload {
            field: self.field.clone(),
            path: self.path.clone(),
            filename: clone_opt_string(&self.filename),
            content_type: clone_opt_string(&self.content_type),
        }
    }
}

impl Clone for ResponseExtract {
    fn clone(&self) -> (r: Self)
        ensures
            r == *self,
    {
        ResponseExtract { variable: self.variable.clone(), path: self.path.clone() }
    }
}

/// The text form of a parameter: `name=value`, or `name` alone for a bare flag.
pub open spec fn param_text(p: ParamView) -> Seq<char> {
    if p.has_equals || p.value.len() > 0 {
        p.name + seq!['='] + p.value
    } else {
        p.name
    }
}

/// The parameter that a text `name=value` or `flag` stands for.
pub open spec fn param_from_text(t: Seq<char>) -> ParamView {
    match split_once(t, seq!['=']) {
        Some((name, value)) => ParamView { name, value, has_equals: true },
        None => ParamView { name: t, value: Seq::empty(), has_equals: false },
    }
}

impl RequestParam {
    pub fn new(name: String, value: String, has_equals: bool) -> (r: Self)
        ensures
            r.name == name,
            r.value == value,
            r.has_equals == has_equals,
    {
        RequestParam { name, value, has_equals }
    }

    pub fn from_text(value: &str) -> (r: Self)
        ensures
            r@ == param_from_text(value@),
    {
        match split_once_str(value, "=") {
            Some((name, rest)) => {
                proof {
                    reveal_strlit("=");
                    assert("="@ =~= seq!['=']);
                }
                RequestParam::new(name, rest, true)
            },
            None => {
                proof {
                    reveal_strlit("=");
                    assert("="@ =~= seq!['=']);
                }
                RequestParam::new(copy_str(value), String::new(), false)
            },
        }
    }

    pub fn to_text(&self) -> (r: String)
        ensures
            r@ == param_text(self@),
    {
        if self.has_equals || !self.value.as_str().is_empty() {
            let mut out = self.name.clone();
            push_char(&mut out, '=');
            push_str(&mut out, self.value.as_str());
            out
        } else {
            self.name.clone()
        }
    }
}

pub fn default_has_equals() -> (r: bool)
    ensures
        r,
{
    true
}

pub fn has_equals(value: &bool) -> (r: bool)
    ensures
        r == *value,
{
    *value
}

pub fn default_temporary_variable() -> (r: bool)
    ensures
        r,
{
    true
}

impl RequestOverride {
    pub open spec fn spec_is_empty(&self) -> bool {
        &&& self.method is None
        &&& self.url is None
        &&& self.timeout_seconds is None
        &&& self.skip_ssl_verification is None
        &&& self.headers is None
        &&& self.query_parts is None
        &&& self.body_parts is None
        &&& self.form is None
        &&& self.files is None
        &&& self.extracts is None
    }

    pub fn is_empty(&self) -> (r: bool)
        ensures
            r == self.spec_is_empty(),
    {
        self.method.is_none() && self.url.is_none() && self.timeout_seconds.is_none()
            && self.skip_ssl_verification.is_none() && self.headers.is_none()
            && self.query_parts.is_none() && self.body_parts.is_none() && self.form.is_none()
            && self.files.is_none() && self.extracts.is_none()
    }

    pub fn apply_to(&self, request: &mut ApiRequest)
        ensures
            final(request).id == old(request).id,
            final(request).name == old(request).name,
            final(request).description == old(request).description,
            final(request).method == (match self.method {
                Some(v) => v,
                None => old(request).method,
            }),
            final(request).url == (match self.url {
                Some(v) => v,
                None => old(request).url,
            }),
            final(request).timeout_seconds == (match self.timeout_seconds {
                Some(v) => v,
                None => old(request).timeout_seconds,
            }),
            final(request).skip_ssl_verification == (match self.skip_ssl_verification {
                Some(v) => v,
                None => old(request).skip_ssl_verification,
            }),
            final(request).headers@ == (match self.headers {
                Some(v) => v@,
                None => old(request).headers@,
            }),
            final(request).query_parts@ == (match self.query_parts {
                Some(v) => v@,
                None => old(request).query_parts@,
            }),
            final(request).body_parts@ == (match self.body_parts {
                Some(v) => v@,
                None => old(request).body_parts@,
            }),
            final(request).form@ == (match self.form {
                Some(v) => v@,
                None => old(request).form@,
            }),
            final(request).files@ == (match self.files {
                Some(v) => v@,
                None => old(request).files@,
            }),
            final(request).extracts@ == (match self.extracts {
                Some(v) => v@,
                None => old(request).extracts@,
            }),
    {
        if let Some(method) = &self.method {
            request.method = method.clone();
        }
        if let Some(url) = &self.url {
            request.url = url.clone();
        }
        if let Some(timeout_seconds) = self.timeout_seconds {
            request.timeout_seconds = timeout_seconds;
        }
        if let Some(skip_ssl_verification) = self.skip_ssl_verification {
            request.skip_ssl_verification = skip_ssl_verification;
        }
        if let Some(headers) = &self.headers {
            request.headers = headers.clone();
        }
        if let Some(query_parts) = &self.query_parts {
            request.query_parts = query_parts.clone();
        }
        if let Some(body_parts) = &self.body_parts {
            request.body_parts = body_parts.clone();
        }
        if let Some(form) = &self.form {
            request.form = form.clone();
        }
        if let Some(files) = &self.files {
            request.files = files.clone();
        }
        if let Some(extracts) = &self.extracts {
            request.extracts = extracts.clone();
        }
    }
}

impl ApiRequest {
    /// The two requests hold the same values, field by field.
    pub open spec fn same_as(&self, other: &ApiRequest) -> bool {
        &&& self.id == other.id
        &&& self.name == other.name
        &&& self.method == other.method
        &&& self.url == other.url
        &&& self.timeout_seconds == other.timeout_seconds
        &&& self.skip_ssl_verification == other.skip_ssl_verification
        &&& self.description == other.description
        &&& self.headers@ == other.headers@
        &&& self.body_parts@ == other.body_parts@
        &&& self.query_parts@ == other.query_parts@
        &&& self.form@ == other.form@
        &&& self.files@ == other.files@
        &&& self.extracts@ == other.extracts@
    }
}

impl Clone for ApiRequest {
    fn clone(&self) -> (r: Self)
        ensures
            r.same_as(self),
    {
        ApiRequest {
            id: self.id.clone(),
            name: self.name.clone(),
            method: self.method.clone(),
            url: self.url.clone(),
            timeout_seconds: self.timeout_seconds,
            skip_ssl_verification: self.skip_ssl_verification,
            description: self.description.clone(),
            headers: self.headers.clone(),
            body_parts: self.body_parts.clone(),
            query_parts: self.query_parts.clone(),
            form: self.form.clone(),
            files: self.files.clone(),
            extracts: self.extracts.clone(),
        }
    }
}

/// The position of the first override for request `id`, or -1.
pub open spec fn override_index(overrides: Seq<(String, RequestOverride)>, id: Seq<char>) -> int
    decreases overrides.len(),
{
    if overrides.len() == 0 {
        -1
    } else if overrides[0].0@ == id {
        0
    } else {
        let r = override_index(overrides.drop_first(), id);
        if r < 0 {
            -1
        } else {
            r + 1
        }
    }
}

pub proof fn lemma_override_index(overrides: Seq<(String, RequestOverride)>, id: Seq<char>)
    ensures
        -1 <= override_index(overrides, id) < overrides.len(),
        override_index(overrides, id) >= 0 ==> overrides[override_index(overrides, id)].0@ == id,
        override_index(overrides, id) >= 0 ==> forall|j: int|
            0 <= j < override_index(overrides, id) ==> overrides[j].0@ != id,
        override_index(overrides, id) < 0 ==> forall|j: int|
            0 <= j < overrides.len() ==> overrides[j].0@ != id,
    decreases overrides.len(),
{
    if overrides.len() > 0 {
        lemma_override_index(overrides.drop_first(), id);
        assert forall|j: int| 1 <= j < overrides.len() implies overrides[j] == overrides.drop_first()[j
            - 1] by {}
    }
}

/// The first override for request `id` in a scenario's list, as values.
pub open spec fn override_at(overrides: Seq<(Seq<char>, OverrideView)>, id: Seq<char>) -> Option<OverrideView>
    decreases overrides.len(),
{
    if overrides.len() == 0 {
        None
    } else if overrides[0].0 == id {
        Some(overrides[0].1)
    } else {
        override_at(overrides.drop_first(), id)
    }
}

pub open spec fn override_views(overrides: Seq<(String, RequestOverride)>) -> Seq<(Seq<char>, OverrideView)> {
    overrides.map_values(|e: (String, RequestOverride)| (e.0@, e.1@))
}

pub proof fn lemma_override_at(overrides: Seq<(String, RequestOverride)>, id: Seq<char>)
    ensures
        override_at(override_views(overrides), id) == (if override_index(overrides, id) < 0 {
            None
        } else {
            Some(overrides[override_index(overrides, id)].1@)
        }),
    decreases overrides.len(),
{
    lemma_override_index(overrides, id);
    if overrides.len() > 0 {
        assert(override_views(overrides).drop_first() =~= override_views(overrides.drop_first()));
        lemma_override_at(overrides.drop_first(), id);
        lemma_override_index(overrides.drop_first(), id);
    }
}

/// A request as a scenario sends it: the scenario's timeout and TLS choice, then the
/// scenario's override for the request, field by field.
pub open spec fn spec_for_configuration(s: RequestView, c: ConfigurationView) -> RequestView {
    let base_timeout = match c.timeout_seconds {
        Some(t) => t,
        None => s.timeout_seconds,
    };
    let base_skip = match c.skip_ssl_verification {
        Some(b) => b,
        None => s.skip_ssl_verification,
    };
    match override_at(c.request_overrides, s.id) {
        None => RequestView { timeout_seconds: base_timeout, skip_ssl_verification: base_skip, ..s },
        Some(o) => RequestView {
            method: match o.method {
                Some(v) => v,
                None => s.method,
            },
            url: match o.url {
                Some(v) => v,
                None => s.url,
            },
            timeout_seconds: match o.timeout_seconds {
                Some(v) => v,
                None => base_timeout,
            },
            skip_ssl_verification: match o.skip_ssl_verification {
                Some(v) => v,
                None => base_skip,
            },
            headers: match o.headers {
                Some(v) => v,
                None => s.headers,
            },
            query_parts: match o.query_parts {
                Some(v) => v,
                None => s.query_parts,
            },
            body_parts: match o.body_parts {
                Some(v) => v,
                None => s.body_parts,
            },
            form: match o.form {
                Some(v) => v,
                None => s.form,
            },
            files: match o.files {
                Some(v) => v,
                None => s.files,
            },
            extracts: match o.extracts {
                Some(v) => v,
                None => s.extracts,
            },
            ..s
        },
    }
}

impl WorkspaceConfiguration {
    /// The override that this scenario holds for request `id`.
    pub open spec fn spec_override_for(&self, id: Seq<char>) -> Option<RequestOverride> {
        let k = override_index(self.request_overrides@, id);
        if k < 0 {
            None
        } else {
            Some(self.request_overrides@[k].1)
        }
    }

    pub fn override_for(&self, id: &str) -> (r: Option<&RequestOverride>)
        ensures
            match r {
                Some(o) => self.spec_override_for(id@) == Some(*o),
                None => self.spec_override_for(id@) is None,
            },
    {
        proof {
            lemma_override_index(self.request_overrides@, id@);
        }
        let mut i: usize = 0;
        while i < self.request_overrides.len()
            invariant
                i <= self.request_overrides@.len(),
                forall|j: int| 0 <= j < i ==> self.request_overrides@[j].0@ != id@,
                -1 <= override_index(self.request_overrides@, id@) < self.request_overrides@.len(),
                override_index(self.request_overrides@, id@) >= 0
                    ==> self.request_overrides@[override_index(
                    self.request_overrides@,
                    id@,
                )].0@ == id@,
                override_index(self.request_overrides@, id@) >= 0 ==> forall|j: int|
                    0 <= j < override_index(self.request_overrides@, id@)
                        ==> self.request_overrides@[j].0@ != id@,
                override_index(self.request_overrides@, id@) < 0 ==> forall|j: int|
                    0 <= j < self.request_overrides@.len() ==> self.request_overrides@[j].0@
                        != id@,
            decreases self.request_overrides@.len() - i,
        {
            if eq_str(self.request_overrides[i].0.as_str(), id) {
                return Some(&self.request_overrides[i].1);
            }
            i = i + 1;
        }
        None
    }
}

impl ApiRequest {
    /// This request as one scenario sends it: the scenario's timeout and TLS setting,
    /// then the scenario's override for this request.
    pub fn for_configuration(&self, configuration: &WorkspaceConfiguration) -> (r: ApiRequest)
        ensures
            ({
                let base_timeout = match configuration.timeout_seconds {
                    Some(t) => t,
                    None => self.timeout_seconds,
                };
                let base_skip = match configuration.skip_ssl_verification {
                    Some(b) => b,
                    None => self.skip_ssl_verification,
                };
                match configuration.spec_override_for(self.id@) {
                    None => {
                        &&& r.method == self.method
                        &&& r.url == self.url
                        &&& r.timeout_seconds == base_timeout
                        &&& r.skip_ssl_verification == base_skip
                        &&& r.headers@ == self.headers@
                        &&& r.query_parts@ == self.query_parts@
                        &&& r.body_parts@ == self.body_parts@
                        &&& r.form@ == self.form@
                        &&& r.files@ == self.files@
                        &&& r.extracts@ == self.extracts@
                    },
                    Some(o) => {
                        &&& r.method == (match o.method {
                            Some(v) => v,
                            None => self.method,
                        })
                        &&& r.url == (match o.url {
                            Some(v) => v,
                            None => self.url,
                        })
                        &&& r.timeout_seconds == (match o.timeout_seconds {
                            Some(v) => v,
                            None => base_timeout,
                        })
                        &&& r.skip_ssl_verification == (match o.skip_ssl_verification {
                            Some(v) => v,
                            None => base_skip,
                        })
                        &&& r.headers@ == (match o.headers {
                            Some(v) => v@,
                            None => self.headers@,
                        })
                        &&& r.query_parts@ == (match o.query_parts {
                            Some(v) => v@,
                            None => self.query_parts@,
                        })
                        &&& r.body_parts@ == (match o.body_parts {
                            Some(v) => v@,
                            None => self.body_parts@,
                        })
                        &&& r.form@ == (match o.form {
                            Some(v) => v@,
                            None => self.form@,
                        })
                        &&& r.files@ == (match o.files {
                            Some(v) => v@,
                            None => self.files@,
                        })
                        &&& r.extracts@ == (match o.extracts {
                            Some(v) => v@,
                            None => self.extracts@,
                        })
                    },
                }
            }),
            r.id == self.id,
            r.name == self.name,
            r.description == self.description,
            r@ == spec_for_configuration(self@, configuration@),
    {
        proof {
            lemma_override_at(configuration.request_overrides@, self.id@);
            lemma_override_index(configuration.request_overrides@, self.id@);
        }
        let mut request = self.clone();
        if let Some(timeout_seconds) = configuration.timeout_seconds {
            request.timeout_seconds = timeout_seconds;
        }
        if let Some(skip_ssl_verification) = configuration.skip_ssl_verification {
            request.skip_ssl_verification = skip_ssl_verification;
        }
        if let Some(request_override) = configuration.override_for(self.id.as_str()) {
            request_override.apply_to(&mut request);
        }
        request
    }
}


/// A parameter written out as text and read back is the same text: `name=value` splits at
/// its first `=`, a text without one is a flag.
pub proof fn law_param_text_round_trip(t: Seq<char>)
    ensures
        param_text(param_from_text(t)) == t,
{
    let eq = seq!['='];
    crate::text::lemma_find_bounds(t, eq);
    let k = crate::text::find(t, eq);
    if k >= 0 {
        assert(t.subrange(k, k + 1) == eq);
        assert(t.take(k) + eq + t.skip(k + 1) =~= t);
    }
}

} // verus!
