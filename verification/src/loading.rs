//! A workspace put together from its parsed files: requests, scenarios and the default
//! scenario, with the problems found, either refused or kept as warnings.
use vstd::prelude::*;
use crate::config::{
    ApiRequest, ConfigurationView, OverrideView, RequestOverride, RequestView,
    WorkspaceConfiguration,
};
use crate::diagnostics::{
    diagnostic_text, invalid, ConfigDiagnostic,
    DiagnosticKind, DiagnosticView, LoadError, LoadErrorView,
};
use crate::documents::{ConfigurationDocument, RequestOverrideDocument};
use crate::files::{
    file_name, normalize_configuration_name, normalize_request_id, parent_path, path_file_name,
    spec_configuration_name, spec_normalize_request_id, spec_parent, ParsedRequest,
};
use crate::keyed::stash_view;
use crate::text::{copy_str, eq_str, push_str, trim, trim_str};
use crate::variables::{normalize_variables, spec_normalize_variables, DefinitionView};
use crate::validation::{
    normalize_headers, normalize_override, normalize_request, spec_normalize_headers,
    spec_normalize_override, spec_normalize_request, timeout_msg, validate_timeout,
};

verus! {

/// The error that marks `path` invalid in `field`, as values.
pub open spec fn invalid_view(path: Seq<char>, field: Seq<char>, detail: Seq<char>) -> LoadErrorView {
    LoadErrorView::Config(
        DiagnosticView { kind: DiagnosticKind::Invalid, path, field, location: None, detail },
    )
}

fn text_with(prefix: &str, value: &str) -> (r: String)
    ensures
        r@ == prefix@ + value@,
{
    let mut m = copy_str(prefix);
    push_str(&mut m, value);
    m
}

/// A scenario's overrides, one by one: the request path normalized and naming a request of
/// the workspace, the override normalized, no request overridden twice.
pub open spec fn spec_overrides_run(
    raws: Seq<(String, RequestOverrideDocument)>,
    ids: Seq<Seq<char>>,
    path: Seq<char>,
    name: Seq<char>,
) -> Result<Seq<(Seq<char>, OverrideView)>, LoadErrorView>
    decreases raws.len(),
{
    if raws.len() == 0 {
        Ok(Seq::empty())
    } else {
        match spec_overrides_run(raws.drop_last(), ids, path, name) {
            Err(e) => Err(e),
            Ok(done) => {
                let raw_id = raws.last().0@;
                match spec_normalize_request_id(raw_id) {
                    Err(m) => Err(invalid_view(path, "overrides"@, m)),
                    Ok(id) => if !ids.contains(id) {
                        Err(invalid_view(path, "overrides"@, "Referenced request does not exist: "@ + raw_id))
                    } else {
                        match spec_normalize_override(raws.last().1, id, name) {
                            Err(m) => Err(invalid_view(path, "overrides."@ + id, m)),
                            Ok(o) => if exists|j: int| 0 <= j < done.len() && (#[trigger] done[j]).0 == id {
                                Err(
                                    invalid_view(
                                        path,
                                        "overrides"@,
                                        "Request override is declared more than once: "@ + id,
                                    ),
                                )
                            } else {
                                Ok(insert_by_name(done, (id, o)))
                            },
                        }
                    },
                }
            },
        }
    }
}

proof fn lemma_overrides_error_stays(
    raws: Seq<(String, RequestOverrideDocument)>,
    ids: Seq<Seq<char>>,
    path: Seq<char>,
    name: Seq<char>,
    k: int,
)
    requires
        0 <= k <= raws.len(),
        spec_overrides_run(raws.take(k), ids, path, name) is Err,
    ensures
        spec_overrides_run(raws, ids, path, name) == spec_overrides_run(raws.take(k), ids, path, name),
    decreases raws.len() - k,
{
    if k < raws.len() {
        assert(raws.take(k + 1).drop_last() =~= raws.take(k));
        lemma_overrides_error_stays(raws, ids, path, name, k + 1);
    } else {
        assert(raws.take(k) =~= raws);
    }
}

/// A scenario file's document, checked and normalized: its variables, its headers, its
/// timeout, then its overrides; a problem is reported against the file and the field it
/// lies in.
pub open spec fn spec_normalize_configuration(
    path: Seq<char>,
    name: Seq<char>,
    raw: ConfigurationDocument,
    ids: Seq<Seq<char>>,
) -> Result<ConfigurationView, LoadErrorView> {
    match spec_normalize_variables(raw.variables@) {
        Err(m) => Err(invalid_view(path, "variables"@, m)),
        Ok(variables) => match spec_normalize_headers(raw.headers.deep_view()) {
            Err(m) => Err(invalid_view(path, "headers"@, m)),
            Ok(headers) => if raw.timeout == Some(0u64) {
                Err(invalid_view(path, "timeout"@, timeout_msg()))
            } else {
                match spec_overrides_run(raw.overrides@, ids, path, name) {
                    Err(e) => Err(e),
                    Ok(overrides) => Ok(
                        ConfigurationView {
                            path: Some(path),
                            variables,
                            headers,
                            timeout_seconds: raw.timeout,
                            skip_ssl_verification: raw.skip_ssl_verification,
                            request_overrides: overrides,
                        },
                    ),
                }
            },
        },
    }
}

fn contains_id(ids: &Vec<String>, id: &str) -> (r: bool)
    ensures
        r == crate::text::views(ids@).contains(id@),
{
    let ghost iv = crate::text::views(ids@);
    let mut i: usize = 0;
    while i < ids.len()
        invariant
            iv == crate::text::views(ids@),
            i <= iv.len(),
            forall|j: int| 0 <= j < i ==> #[trigger] iv[j] != id@,
        decreases iv.len() - i,
    {
        assert(iv[i as int] == ids@[i as int]@);
        if eq_str(ids[i].as_str(), id) {
            assert(iv.contains(id@));
            return true;
        }
        i = i + 1;
    }
    false
}

fn has_override(overrides: &Vec<(String, RequestOverride)>, id: &str) -> (r: bool)
    ensures
        r == exists|j: int| 0 <= j < overrides@.len() && (#[trigger] overrides@[j]).0@ == id@,
{
    let mut i: usize = 0;
    while i < overrides.len()
        invariant
            i <= overrides@.len(),
            forall|j: int| 0 <= j < i ==> (#[trigger] overrides@[j]).0@ != id@,
        decreases overrides@.len() - i,
    {
        if eq_str(overrides[i].0.as_str(), id) {
            return true;
        }
        i = i + 1;
    }
    false
}

/// Normalizes the document of scenario `name` read from `path`, against the identifiers of
/// the workspace's requests.
pub fn normalize_configuration(path: &str, name: &str, raw: &ConfigurationDocument, request_ids: &Vec<String>) -> (r: Result<
    WorkspaceConfiguration,
    LoadError,
>)
    ensures
        match r {
            Ok(c) => spec_normalize_configuration(path@, name@, *raw, crate::text::views(request_ids@))
                == Ok::<ConfigurationView, LoadErrorView>(c@),
            Err(e) => spec_normalize_configuration(path@, name@, *raw, crate::text::views(request_ids@))
                == Err::<ConfigurationView, LoadErrorView>(e@),
        },
{
    let ghost ids = crate::text::views(request_ids@);
    let variables = match normalize_variables(&raw.variables) {
        Ok(v) => v,
        Err(m) => return Err(invalid(path, copy_str("variables"), m)),
    };
    let headers = match normalize_headers(&raw.headers) {
        Ok(h) => h,
        Err(m) => return Err(invalid(path, copy_str("headers"), m)),
    };
    let timeout_seconds = match raw.timeout {
        Some(t) => match validate_timeout(t) {
            Ok(t) => Some(t),
            Err(m) => return Err(invalid(path, copy_str("timeout"), m)),
        },
        None => None,
    };
    let ghost raws = raw.overrides@;
    let mut overrides: Vec<(String, RequestOverride)> = Vec::new();
    let mut i: usize = 0;
    assert(raws.take(0) =~= Seq::<(String, RequestOverrideDocument)>::empty());
    assert(overrides@.map_values(|e: (String, RequestOverride)| (e.0@, e.1@)) =~= Seq::<
        (Seq<char>, OverrideView),
    >::empty());
    while i < raw.overrides.len()
        invariant
            raws == raw.overrides@,
            ids == crate::text::views(request_ids@),
            spec_normalize_variables(raw.variables@) == Ok::<Map<Seq<char>, DefinitionView>, Seq<char>>(
                stash_view(variables@),
            ),
            spec_normalize_headers(raw.headers.deep_view()) == Ok::<
                Seq<(Seq<char>, Seq<char>)>,
                Seq<char>,
            >(headers.deep_view()),
            raw.timeout != Some(0u64),
            timeout_seconds == raw.timeout,
            i <= raws.len(),
            spec_overrides_run(raws.take(i as int), ids, path@, name@) == Ok::<
                Seq<(Seq<char>, OverrideView)>,
                LoadErrorView,
            >(overrides@.map_values(|e: (String, RequestOverride)| (e.0@, e.1@))),
        decreases raws.len() - i,
    {
        assert(raws.take(i + 1).drop_last() =~= raws.take(i as int));
        assert(raws.take(i + 1).last() == raws[i as int]);
        let ghost done = overrides@.map_values(|e: (String, RequestOverride)| (e.0@, e.1@));
        let raw_id = raw.overrides[i].0.as_str();
        let id = match normalize_request_id(raw_id) {
            Ok(id) => id,
            Err(m) => {
                proof {
                    lemma_overrides_error_stays(raws, ids, path@, name@, i + 1);
                }
                return Err(invalid(path, copy_str("overrides"), m));
            },
        };
        if !contains_id(request_ids, id.as_str()) {
            proof {
                lemma_overrides_error_stays(raws, ids, path@, name@, i + 1);
            }
            return Err(
                invalid(path, copy_str("overrides"), text_with("Referenced request does not exist: ", raw_id)),
            );
        }
        let request_override = match normalize_override(&raw.overrides[i].1, id.as_str(), name) {
            Ok(o) => o,
            Err(m) => {
                proof {
                    lemma_overrides_error_stays(raws, ids, path@, name@, i + 1);
                }
                return Err(invalid(path, text_with("overrides.", id.as_str()), m));
            },
        };
        if has_override(&overrides, id.as_str()) {
            proof {
                let j = choose|j: int| 0 <= j < overrides@.len() && (#[trigger] overrides@[j]).0@ == id@;
                assert(done[j].0 == id@);
                lemma_overrides_error_stays(raws, ids, path@, name@, i + 1);
            }
            return Err(
                invalid(
                    path,
                    copy_str("overrides"),
                    text_with("Request override is declared more than once: ", id.as_str()),
                ),
            );
        }
        proof {
            assert forall|j: int| 0 <= j < done.len() implies (#[trigger] done[j]).0 != id@ by {
                assert(done[j].0 == overrides@[j].0@);
            }
        }
        let ghost entry = (id@, request_override@);
        let mut k: usize = 0;
        while k < overrides.len() && !text_le_exec(id.as_str(), overrides[k].0.as_str())
            invariant
                k <= overrides@.len(),
                done == overrides@.map_values(|e: (String, RequestOverride)| (e.0@, e.1@)),
                entry.0 == id@,
                forall|q: int| 0 <= q < k ==> !text_le(entry.0, #[trigger] done[q].0),
            decreases overrides@.len() - k,
        {
            assert(done[k as int].0 == overrides@[k as int].0@);
            k = k + 1;
        }
        proof {
            if k < overrides@.len() {
                assert(done[k as int].0 == overrides@[k as int].0@);
            }
            assert(is_insert_point(done, entry.0, k as int));
            lemma_insert_point(done, entry, k as int);
        }
        overrides.insert(k, (id, request_override));
        assert(overrides@.map_values(|e: (String, RequestOverride)| (e.0@, e.1@)) =~= done.insert(k as int, entry));
        i = i + 1;
    }
    assert(raws.take(raws.len() as int) =~= raws);
    Ok(
        WorkspaceConfiguration {
            path: Some(copy_str(path)),
            variables,
            headers,
            timeout_seconds,
            skip_ssl_verification: raw.skip_ssl_verification,
            request_overrides: overrides,
        },
    )
}


/// The diagnostics of a list, as values.
pub open spec fn diagnostic_views(ws: Seq<ConfigDiagnostic>) -> Seq<DiagnosticView> {
    ws.map_values(|d: ConfigDiagnostic| d@)
}

/// A warning added to those recorded unless one with the same text is there.
pub open spec fn recorded(ws: Seq<DiagnosticView>, w: DiagnosticView) -> Seq<DiagnosticView> {
    if exists|j: int| 0 <= j < ws.len() && diagnostic_text(#[trigger] ws[j]) == diagnostic_text(w) {
        ws
    } else {
        ws.push(w)
    }
}

pub fn record_warning(warnings: &mut Vec<ConfigDiagnostic>, warning: ConfigDiagnostic)
    ensures
        diagnostic_views(final(warnings)@) == recorded(diagnostic_views(old(warnings)@), warning@),
{
    let ghost before = diagnostic_views(warnings@);
    let message = warning.message();
    let mut i: usize = 0;
    while i < warnings.len()
        invariant
            before == diagnostic_views(warnings@),
            message@ == diagnostic_text(warning@),
            i <= warnings@.len(),
            forall|j: int| 0 <= j < i ==> diagnostic_text(#[trigger] before[j]) != message@,
        decreases warnings@.len() - i,
    {
        let existing = warnings[i].message();
        assert(before[i as int] == warnings@[i as int]@);
        if eq_str(existing.as_str(), message.as_str()) {
            assert(diagnostic_text(before[i as int]) == diagnostic_text(warning@));
            return;
        }
        i = i + 1;
    }
    warnings.push(warning);
    assert(diagnostic_views(warnings@) =~= before.push(warning@));
}

/// A request file as the reader hands it over: where it lies, and its document or why it
/// could not be read as one.
pub struct RequestSource {
    pub path: String,
    pub parsed: Result<ParsedRequest, ConfigDiagnostic>,
}

/// The requests kept so far and the warnings recorded so far.
pub struct RequestsState {
    pub requests: Seq<RequestView>,
    pub warnings: Seq<DiagnosticView>,
}

/// What one request file gives: the normalized request, or the diagnostic of its problem.
pub open spec fn request_outcome(src: RequestSource, dt: u64, ds: bool) -> Result<RequestView, DiagnosticView> {
    match src.parsed {
        Err(d) => Err(d@),
        Ok(raw) => match spec_normalize_request(raw.id@, raw.document, dt, ds) {
            Ok(r) => Ok(r),
            Err(m) => Err(
                DiagnosticView {
                    kind: DiagnosticKind::Invalid,
                    path: src.path@,
                    field: "request"@,
                    location: None,
                    detail: m,
                },
            ),
        },
    }
}

pub open spec fn duplicate_id(path: Seq<char>, id: Seq<char>) -> DiagnosticView {
    DiagnosticView {
        kind: DiagnosticKind::Invalid,
        path,
        field: "id"@,
        location: None,
        detail: "Request id is duplicated: "@ + id,
    }
}

/// The request files taken one by one: a request is kept unless it fails or repeats the
/// identifier of one kept before; a failure is a warning when `tolerant`, else the error.
pub open spec fn requests_run(
    srcs: Seq<RequestSource>,
    dt: u64,
    ds: bool,
    tolerant: bool,
    warnings: Seq<DiagnosticView>,
) -> Result<RequestsState, DiagnosticView>
    decreases srcs.len(),
{
    if srcs.len() == 0 {
        Ok(RequestsState { requests: Seq::empty(), warnings })
    } else {
        match requests_run(srcs.drop_last(), dt, ds, tolerant, warnings) {
            Err(e) => Err(e),
            Ok(st) => match request_outcome(srcs.last(), dt, ds) {
                Err(d) => if tolerant {
                    Ok(RequestsState { warnings: recorded(st.warnings, d), ..st })
                } else {
                    Err(d)
                },
                Ok(r) => if exists|j: int| 0 <= j < st.requests.len() && (#[trigger] st.requests[j]).id == r.id {
                    if tolerant {
                        Ok(
                            RequestsState {
                                warnings: recorded(st.warnings, duplicate_id(srcs.last().path@, r.id)),
                                ..st
                            },
                        )
                    } else {
                        Err(duplicate_id(srcs.last().path@, r.id))
                    }
                } else {
                    Ok(RequestsState { requests: st.requests.push(r), ..st })
                },
            },
        }
    }
}

proof fn lemma_requests_error_stays(
    srcs: Seq<RequestSource>,
    dt: u64,
    ds: bool,
    tolerant: bool,
    warnings: Seq<DiagnosticView>,
    k: int,
)
    requires
        0 <= k <= srcs.len(),
        requests_run(srcs.take(k), dt, ds, tolerant, warnings) is Err,
    ensures
        requests_run(srcs, dt, ds, tolerant, warnings) == requests_run(srcs.take(k), dt, ds, tolerant, warnings),
    decreases srcs.len() - k,
{
    if k < srcs.len() {
        assert(srcs.take(k + 1).drop_last() =~= srcs.take(k));
        lemma_requests_error_stays(srcs, dt, ds, tolerant, warnings, k + 1);
    } else {
        assert(srcs.take(k) =~= srcs);
    }
}

fn one_request(src: &RequestSource, dt: u64, ds: bool) -> (r: Result<ApiRequest, ConfigDiagnostic>)
    ensures
        match r {
            Ok(x) => request_outcome(*src, dt, ds) == Ok::<RequestView, DiagnosticView>(x@),
            Err(d) => request_outcome(*src, dt, ds) == Err::<RequestView, DiagnosticView>(d@),
        },
{
    match &src.parsed {
        Err(d) => Err(d.clone()),
        Ok(raw) => match normalize_request(raw, dt, ds) {
            Ok(x) => Ok(x),
            Err(m) => Err(ConfigDiagnostic::invalid(src.path.as_str(), copy_str("request"), m)),
        },
    }
}

fn has_request_id(requests: &Vec<ApiRequest>, id: &str) -> (r: bool)
    ensures
        r == exists|j: int| 0 <= j < requests@.len() && (#[trigger] requests@[j]).id@ == id@,
{
    let mut i: usize = 0;
    while i < requests.len()
        invariant
            i <= requests@.len(),
            forall|j: int| 0 <= j < i ==> (#[trigger] requests@[j]).id@ != id@,
        decreases requests@.len() - i,
    {
        if eq_str(requests[i].id.as_str(), id) {
            return true;
        }
        i = i + 1;
    }
    false
}

pub open spec fn request_views(rs: Seq<ApiRequest>) -> Seq<RequestView> {
    rs.map_values(|r: ApiRequest| r@)
}

/// Normalizes the workspace's request files in order, with the workspace's default timeout
/// and TLS choice; in `tolerant` mode a failing file becomes a warning and is left out.
pub fn normalize_requests(
    sources: &Vec<RequestSource>,
    default_timeout_seconds: u64,
    default_skip_ssl_verification: bool,
    tolerant: bool,
    warnings: &mut Vec<ConfigDiagnostic>,
) -> (r: Result<Vec<ApiRequest>, LoadError>)
    ensures
        match r {
            Ok(rs) => requests_run(
                sources@,
                default_timeout_seconds,
                default_skip_ssl_verification,
                tolerant,
                diagnostic_views(old(warnings)@),
            ) == Ok::<RequestsState, DiagnosticView>(
                RequestsState {
                    requests: request_views(rs@),
                    warnings: diagnostic_views(final(warnings)@),
                },
            ),
            Err(e) => requests_run(
                sources@,
                default_timeout_seconds,
                default_skip_ssl_verification,
                tolerant,
                diagnostic_views(old(warnings)@),
            ) matches Err(d) && e@ == LoadErrorView::Config(d),
        },
        !tolerant ==> final(warnings)@ == old(warnings)@,
{
    let ghost w0 = diagnostic_views(warnings@);
    let ghost srcs = sources@;
    let mut requests: Vec<ApiRequest> = Vec::new();
    let mut i: usize = 0;
    assert(srcs.take(0) =~= Seq::<RequestSource>::empty());
    assert(request_views(requests@) =~= Seq::<RequestView>::empty());
    while i < sources.len()
        invariant
            srcs == sources@,
            w0 == diagnostic_views(old(warnings)@),
            i <= srcs.len(),
            requests_run(srcs.take(i as int), default_timeout_seconds, default_skip_ssl_verification, tolerant, w0)
                == Ok::<RequestsState, DiagnosticView>(
                RequestsState {
                    requests: request_views(requests@),
                    warnings: diagnostic_views(warnings@),
                },
            ),
            !tolerant ==> warnings@ == old(warnings)@,
        decreases srcs.len() - i,
    {
        assert(srcs.take(i + 1).drop_last() =~= srcs.take(i as int));
        assert(srcs.take(i + 1).last() == srcs[i as int]);
        let ghost done = request_views(requests@);
        match one_request(&sources[i], default_timeout_seconds, default_skip_ssl_verification) {
            Err(d) => {
                if tolerant {
                    record_warning(warnings, d);
                } else {
                    proof {
                        lemma_requests_error_stays(
                            srcs,
                            default_timeout_seconds,
                            default_skip_ssl_verification,
                            tolerant,
                            w0,
                            i + 1,
                        );
                    }
                    return Err(LoadError::Config(d));
                }
            },
            Ok(request) => {
                if has_request_id(&requests, request.id.as_str()) {
                    proof {
                        let j = choose|j: int| 0 <= j < requests@.len() && (#[trigger] requests@[j]).id@ == request.id@;
                        assert(done[j].id == request@.id);
                    }
                    let d = ConfigDiagnostic::invalid(
                        sources[i].path.as_str(),
                        copy_str("id"),
                        text_with("Request id is duplicated: ", request.id.as_str()),
                    );
                    if tolerant {
                        record_warning(warnings, d);
                    } else {
                        proof {
                            lemma_requests_error_stays(
                                srcs,
                                default_timeout_seconds,
                                default_skip_ssl_verification,
                                tolerant,
                                w0,
                                i + 1,
                            );
                        }
                        return Err(LoadError::Config(d));
                    }
                } else {
                    proof {
                        assert forall|j: int| 0 <= j < done.len() implies (#[trigger] done[j]).id != request@.id by {
                            assert(done[j] == requests@[j]@);
                        }
                    }
                    let ghost rv = request@;
                    requests.push(request);
                    assert(request_views(requests@) =~= done.push(rv));
                }
            },
        }
        i = i + 1;
    }
    assert(srcs.take(srcs.len() as int) =~= srcs);
    Ok(requests)
}


/// A scenario file as the reader hands it over: its name, where it lies, and its document
/// or why it could not be read as one.
pub struct ConfigurationSource {
    pub name: String,
    pub path: String,
    pub parsed: Result<ConfigurationDocument, ConfigDiagnostic>,
}

/// The scenario a workspace without scenario files has: it sets nothing.
pub open spec fn empty_configuration() -> ConfigurationView {
    ConfigurationView {
        path: None,
        variables: Map::empty(),
        headers: Seq::empty(),
        timeout_seconds: None,
        skip_ssl_verification: None,
        request_overrides: Seq::empty(),
    }
}

pub fn default_configuration() -> (r: WorkspaceConfiguration)
    ensures
        r@ == empty_configuration(),
{
    let r = WorkspaceConfiguration {
        path: None,
        variables: Vec::new(),
        headers: Vec::new(),
        timeout_seconds: None,
        skip_ssl_verification: None,
        request_overrides: Vec::new(),
    };
    assert(r@.headers =~= Seq::<(Seq<char>, Seq<char>)>::empty());
    assert(r@.request_overrides =~= Seq::<(Seq<char>, OverrideView)>::empty());
    assert(r@.variables =~= Map::<Seq<char>, DefinitionView>::empty());
    r
}

pub open spec fn configuration_outcome(src: ConfigurationSource, ids: Seq<Seq<char>>) -> Result<
    ConfigurationView,
    LoadErrorView,
> {
    match src.parsed {
        Err(d) => Err(LoadErrorView::Config(d@)),
        Ok(doc) => spec_normalize_configuration(src.path@, src.name@, doc, ids),
    }
}

/// The scenarios kept so far, by name, and the warnings recorded so far.
pub struct ConfigurationsState {
    pub configurations: Seq<(Seq<char>, ConfigurationView)>,
    pub warnings: Seq<DiagnosticView>,
}

/// The scenario files taken one by one: a scenario is kept unless it fails; a failure
/// with a diagnostic is a warning when `tolerant`, else the error.
pub open spec fn configurations_run(
    srcs: Seq<ConfigurationSource>,
    ids: Seq<Seq<char>>,
    tolerant: bool,
    warnings: Seq<DiagnosticView>,
) -> Result<ConfigurationsState, LoadErrorView>
    decreases srcs.len(),
{
    if srcs.len() == 0 {
        Ok(ConfigurationsState { configurations: Seq::empty(), warnings })
    } else {
        match configurations_run(srcs.drop_last(), ids, tolerant, warnings) {
            Err(e) => Err(e),
            Ok(st) => match configuration_outcome(srcs.last(), ids) {
                Ok(c) => Ok(
                    ConfigurationsState {
                        configurations: st.configurations.push((srcs.last().name@, c)),
                        ..st
                    },
                ),
                Err(e) => match e {
                    LoadErrorView::Config(d) => if tolerant {
                        Ok(ConfigurationsState { warnings: recorded(st.warnings, d), ..st })
                    } else {
                        Err(e)
                    },
                    LoadErrorView::Other(_) => Err(e),
                },
            },
        }
    }
}

/// An entry put among entries ordered by name: before the first whose name does not come
/// before its own.
pub open spec fn insert_by_name<T>(s: Seq<(Seq<char>, T)>, x: (Seq<char>, T)) -> Seq<(Seq<char>, T)>
    decreases s.len(),
{
    if s.len() == 0 {
        seq![x]
    } else if text_le(x.0, s[0].0) {
        seq![x] + s
    } else {
        seq![s[0]] + insert_by_name(s.drop_first(), x)
    }
}

/// The entries ordered by name, in the order of `String`, as a map keyed by name holds them.
pub open spec fn by_name<T>(s: Seq<(Seq<char>, T)>) -> Seq<(Seq<char>, T)>
    decreases s.len(),
{
    if s.len() == 0 {
        s
    } else {
        insert_by_name(by_name(s.drop_last()), s.last())
    }
}

/// `k` is where `insert_by_name` puts an entry named `n`.
pub open spec fn is_insert_point<T>(s: Seq<(Seq<char>, T)>, n: Seq<char>, k: int) -> bool {
    &&& 0 <= k <= s.len()
    &&& k < s.len() ==> text_le(n, s[k].0)
    &&& forall|j: int| 0 <= j < k ==> !text_le(n, #[trigger] s[j].0)
}

pub proof fn lemma_insert_point<T>(s: Seq<(Seq<char>, T)>, x: (Seq<char>, T), k: int)
    requires
        is_insert_point(s, x.0, k),
    ensures
        insert_by_name(s, x) == s.insert(k, x),
    decreases s.len(),
{
    if s.len() == 0 {
        assert(s.insert(k, x) =~= seq![x]);
    } else if text_le(x.0, s[0].0) {
        assert(k == 0);
        assert(s.insert(k, x) =~= seq![x] + s);
    } else {
        let t = s.drop_first();
        assert(k >= 1);
        assert forall|j: int| 0 <= j < k - 1 implies !text_le(x.0, #[trigger] t[j].0) by {
            assert(t[j] == s[j + 1]);
        }
        if k - 1 < t.len() {
            assert(t[k - 1] == s[k]);
        }
        lemma_insert_point(t, x, k - 1);
        assert(s.insert(k, x) =~= seq![s[0]] + t.insert(k - 1, x));
    }
}

/// The names of the entries come in the order of `String`.
pub open spec fn ordered_by_name<T>(s: Seq<(Seq<char>, T)>) -> bool {
    forall|i: int, j: int| 0 <= i < j < s.len() ==> text_le(#[trigger] s[i].0, #[trigger] s[j].0)
}

pub proof fn lemma_insert_ordered<T>(s: Seq<(Seq<char>, T)>, x: (Seq<char>, T))
    requires
        ordered_by_name(s),
    ensures
        ordered_by_name(insert_by_name(s, x)),
        insert_by_name(s, x).len() == s.len() + 1,
        forall|k: int| 0 <= k < insert_by_name(s, x).len() ==> #[trigger] insert_by_name(s, x)[k] == x
            || s.contains(insert_by_name(s, x)[k]),
    decreases s.len(),
{
    let r = insert_by_name(s, x);
    if s.len() == 0 {
    } else if text_le(x.0, s[0].0) {
        assert forall|i: int, j: int| 0 <= i < j < r.len() implies text_le(#[trigger] r[i].0, #[trigger] r[j].0) by {
            if i == 0 {
                assert(r[j] == s[j - 1]);
                if j - 1 > 0 {
                    assert(text_le(s[0].0, s[j - 1].0));
                    lemma_text_le_transitive(x.0, s[0].0, s[j - 1].0);
                }
            } else {
                assert(r[i] == s[i - 1] && r[j] == s[j - 1]);
            }
        }
        assert forall|k: int| 0 <= k < r.len() implies #[trigger] r[k] == x || s.contains(r[k]) by {
            if k > 0 {
                assert(r[k] == s[k - 1]);
            }
        }
    } else {
        let t = s.drop_first();
        assert forall|i: int, j: int| 0 <= i < j < t.len() implies text_le(#[trigger] t[i].0, #[trigger] t[j].0) by {
            assert(t[i] == s[i + 1] && t[j] == s[j + 1]);
        }
        lemma_insert_ordered(t, x);
        let u = insert_by_name(t, x);
        lemma_text_le_total(x.0, s[0].0);
        assert(r =~= seq![s[0]] + u);
        assert forall|i: int, j: int| 0 <= i < j < r.len() implies text_le(#[trigger] r[i].0, #[trigger] r[j].0) by {
            if i == 0 {
                assert(r[j] == u[j - 1]);
                if u[j - 1] != x {
                    assert(t.contains(u[j - 1]));
                    let m = choose|m: int| 0 <= m < t.len() && t[m] == u[j - 1];
                    assert(t[m] == s[m + 1]);
                }
            } else {
                assert(r[i] == u[i - 1] && r[j] == u[j - 1]);
            }
        }
        assert forall|k: int| 0 <= k < r.len() implies #[trigger] r[k] == x || s.contains(r[k]) by {
            if k == 0 {
                assert(s[0] == r[0]);
            } else {
                assert(r[k] == u[k - 1]);
                if u[k - 1] != x {
                    let m = choose|m: int| 0 <= m < t.len() && t[m] == u[k - 1];
                    assert(s[m + 1] == r[k]);
                }
            }
        }
    }
}

/// Scenarios loaded from files come ordered by name, as the map that keeps them by name
/// orders them.
pub proof fn law_scenarios_ordered_by_name<T>(s: Seq<(Seq<char>, T)>)
    ensures
        ordered_by_name(by_name(s)),
        by_name(s).len() == s.len(),
    decreases s.len(),
{
    if s.len() > 0 {
        law_scenarios_ordered_by_name(s.drop_last());
        lemma_insert_ordered(by_name(s.drop_last()), s.last());
    }
}

/// Orders scenarios by name.
fn sort_by_name(cs: Vec<(String, WorkspaceConfiguration)>) -> (r: Vec<(String, WorkspaceConfiguration)>)
    ensures
        named_views(r@) == by_name(named_views(cs@)),
{
    let ghost src = named_views(cs@);
    let total = cs.len();
    let mut rest = cs;
    let mut out: Vec<(String, WorkspaceConfiguration)> = Vec::new();
    let ghost n = src.len();
    let mut i: usize = 0;
    assert(src.take(0) =~= Seq::<(Seq<char>, ConfigurationView)>::empty());
    assert(named_views(out@) =~= Seq::<(Seq<char>, ConfigurationView)>::empty());
    while rest.len() > 0
        invariant
            i + rest@.len() == n,
            n == src.len(),
            n == total,
            forall|j: int| 0 <= j < rest@.len() ==> (rest@[j].0@, rest@[j].1@) == src[j + i],
            named_views(out@) == by_name(src.take(i as int)),
        decreases rest@.len(),
    {
        let x = rest.remove(0);
        let ghost xv = (x.0@, x.1@);
        assert(xv == src[i as int]);
        let ghost ov = named_views(out@);
        let mut k: usize = 0;
        while k < out.len() && !text_le_exec(x.0.as_str(), out[k].0.as_str())
            invariant
                k <= out@.len(),
                ov == named_views(out@),
                xv.0 == x.0@,
                forall|j: int| 0 <= j < k ==> !text_le(xv.0, #[trigger] ov[j].0),
            decreases out@.len() - k,
        {
            assert(ov[k as int].0 == out@[k as int].0@);
            k = k + 1;
        }
        proof {
            if k < out@.len() {
                assert(ov[k as int].0 == out@[k as int].0@);
            }
            assert(is_insert_point(ov, xv.0, k as int));
            lemma_insert_point(ov, xv, k as int);
            assert(src.take(i + 1).drop_last() =~= src.take(i as int));
            assert(src.take(i + 1).last() == xv);
        }
        out.insert(k, x);
        assert(named_views(out@) =~= ov.insert(k as int, xv));
        i = i + 1;
    }
    assert(src.take(i as int) =~= src);
    out
}

/// The workspace's scenarios, ordered by name: those its files give, or one empty scenario
/// `default` when none is left.
pub open spec fn spec_normalize_configurations(
    srcs: Seq<ConfigurationSource>,
    ids: Seq<Seq<char>>,
    tolerant: bool,
    warnings: Seq<DiagnosticView>,
) -> Result<ConfigurationsState, LoadErrorView> {
    match configurations_run(srcs, ids, tolerant, warnings) {
        Err(e) => Err(e),
        Ok(st) => if st.configurations.len() == 0 {
            Ok(
                ConfigurationsState {
                    configurations: seq![("default"@, empty_configuration())],
                    ..st
                },
            )
        } else {
            Ok(ConfigurationsState { configurations: by_name(st.configurations), ..st })
        },
    }
}

proof fn lemma_configurations_error_stays(
    srcs: Seq<ConfigurationSource>,
    ids: Seq<Seq<char>>,
    tolerant: bool,
    warnings: Seq<DiagnosticView>,
    k: int,
)
    requires
        0 <= k <= srcs.len(),
        configurations_run(srcs.take(k), ids, tolerant, warnings) is Err,
    ensures
        configurations_run(srcs, ids, tolerant, warnings) == configurations_run(srcs.take(k), ids, tolerant, warnings),
    decreases srcs.len() - k,
{
    if k < srcs.len() {
        assert(srcs.take(k + 1).drop_last() =~= srcs.take(k));
        lemma_configurations_error_stays(srcs, ids, tolerant, warnings, k + 1);
    } else {
        assert(srcs.take(k) =~= srcs);
    }
}

pub open spec fn named_views(cs: Seq<(String, WorkspaceConfiguration)>) -> Seq<(Seq<char>, ConfigurationView)> {
    cs.map_values(|e: (String, WorkspaceConfiguration)| (e.0@, e.1@))
}

fn one_configuration(src: &ConfigurationSource, request_ids: &Vec<String>) -> (r: Result<
    WorkspaceConfiguration,
    LoadError,
>)
    ensures
        match r {
            Ok(c) => configuration_outcome(*src, crate::text::views(request_ids@)) == Ok::<
                ConfigurationView,
                LoadErrorView,
            >(c@),
            Err(e) => configuration_outcome(*src, crate::text::views(request_ids@)) == Err::<
                ConfigurationView,
                LoadErrorView,
            >(e@),
        },
{
    match &src.parsed {
        Err(d) => Err(LoadError::Config(d.clone())),
        Ok(doc) => normalize_configuration(src.path.as_str(), src.name.as_str(), doc, request_ids),
    }
}

/// Normalizes the workspace's scenario files in order against its request identifiers; in
/// `tolerant` mode a scenario that fails with a diagnostic becomes a warning and is left out.
/// Scenario names are file names of one directory, so no two sources share one.
pub fn normalize_configurations(
    sources: &Vec<ConfigurationSource>,
    request_ids: &Vec<String>,
    tolerant: bool,
    warnings: &mut Vec<ConfigDiagnostic>,
) -> (r: Result<Vec<(String, WorkspaceConfiguration)>, LoadError>)
    ensures
        match r {
            Ok(cs) => spec_normalize_configurations(
                sources@,
                crate::text::views(request_ids@),
                tolerant,
                diagnostic_views(old(warnings)@),
            ) == Ok::<ConfigurationsState, LoadErrorView>(
                ConfigurationsState {
                    configurations: named_views(cs@),
                    warnings: diagnostic_views(final(warnings)@),
                },
            ),
            Err(e) => spec_normalize_configurations(
                sources@,
                crate::text::views(request_ids@),
                tolerant,
                diagnostic_views(old(warnings)@),
            ) == Err::<ConfigurationsState, LoadErrorView>(e@),
        },
        !tolerant ==> final(warnings)@ == old(warnings)@,
{
    let ghost w0 = diagnostic_views(warnings@);
    let ghost srcs = sources@;
    let ghost ids = crate::text::views(request_ids@);
    let mut configurations: Vec<(String, WorkspaceConfiguration)> = Vec::new();
    let mut i: usize = 0;
    assert(srcs.take(0) =~= Seq::<ConfigurationSource>::empty());
    assert(named_views(configurations@) =~= Seq::<(Seq<char>, ConfigurationView)>::empty());
    while i < sources.len()
        invariant
            srcs == sources@,
            ids == crate::text::views(request_ids@),
            w0 == diagnostic_views(old(warnings)@),
            i <= srcs.len(),
            configurations_run(srcs.take(i as int), ids, tolerant, w0) == Ok::<
                ConfigurationsState,
                LoadErrorView,
            >(
                ConfigurationsState {
                    configurations: named_views(configurations@),
                    warnings: diagnostic_views(warnings@),
                },
            ),
            !tolerant ==> warnings@ == old(warnings)@,
        decreases srcs.len() - i,
    {
        assert(srcs.take(i + 1).drop_last() =~= srcs.take(i as int));
        assert(srcs.take(i + 1).last() == srcs[i as int]);
        let ghost done = named_views(configurations@);
        match one_configuration(&sources[i], request_ids) {
            Ok(c) => {
                let ghost entry = (sources[i as int].name@, c@);
                configurations.push((sources[i].name.clone(), c));
                assert(named_views(configurations@) =~= done.push(entry));
            },
            Err(e) => {
                match e {
                    LoadError::Config(d) => {
                        if tolerant {
                            record_warning(warnings, d);
                        } else {
                            proof {
                                lemma_configurations_error_stays(srcs, ids, tolerant, w0, i + 1);
                            }
                            return Err(LoadError::Config(d));
                        }
                    },
                    LoadError::Other(m) => {
                        proof {
                            lemma_configurations_error_stays(srcs, ids, tolerant, w0, i + 1);
                        }
                        return Err(LoadError::Other(m));
                    },
                }
            },
        }
        i = i + 1;
    }
    assert(srcs.take(srcs.len() as int) =~= srcs);
    if configurations.len() == 0 {
        let d = default_configuration();
        configurations.push((copy_str("default"), d));
        assert(named_views(configurations@) =~= seq![("default"@, empty_configuration())]);
        return Ok(configurations);
    }
    Ok(sort_by_name(configurations))
}


/// `a` comes no later than `b` in the order of `String`: character by character, by code point.
pub open spec fn text_le(a: Seq<char>, b: Seq<char>) -> bool
    decreases a.len(),
{
    if a.len() == 0 {
        true
    } else if b.len() == 0 {
        false
    } else if (a[0] as u32) != (b[0] as u32) {
        (a[0] as u32) < (b[0] as u32)
    } else {
        text_le(a.drop_first(), b.drop_first())
    }
}

pub proof fn lemma_text_le_total(a: Seq<char>, b: Seq<char>)
    ensures
        text_le(a, b) || text_le(b, a),
    decreases a.len(),
{
    if a.len() > 0 && b.len() > 0 && (a[0] as u32) == (b[0] as u32) {
        lemma_text_le_total(a.drop_first(), b.drop_first());
    }
}

pub proof fn lemma_text_le_transitive(a: Seq<char>, b: Seq<char>, c: Seq<char>)
    requires
        text_le(a, b),
        text_le(b, c),
    ensures
        text_le(a, c),
    decreases a.len(),
{
    if a.len() > 0 && b.len() > 0 && c.len() > 0 && (a[0] as u32) == (b[0] as u32) && (b[0] as u32)
        == (c[0] as u32) {
        lemma_text_le_transitive(a.drop_first(), b.drop_first(), c.drop_first());
    }
}

pub fn text_le_exec(a: &str, b: &str) -> (r: bool)
    ensures
        r == text_le(a@, b@),
{
    let x = crate::text::chars_of(a);
    let y = crate::text::chars_of(b);
    let mut i: usize = 0;
    assert(x@.skip(0) =~= x@);
    assert(y@.skip(0) =~= y@);
    while i < x.len() && i < y.len() && (x[i] as u32) == (y[i] as u32)
        invariant
            x@ == a@,
            y@ == b@,
            i <= x@.len(),
            i <= y@.len(),
            text_le(a@, b@) == text_le(x@.skip(i as int), y@.skip(i as int)),
        decreases x@.len() - i,
    {
        assert(x@.skip(i as int).drop_first() =~= x@.skip(i + 1));
        assert(y@.skip(i as int).drop_first() =~= y@.skip(i + 1));
        i = i + 1;
    }
    if i == x.len() {
        return true;
    }
    if i == y.len() {
        return false;
    }
    assert(x@.skip(i as int)[0] == x@[i as int]);
    assert(y@.skip(i as int)[0] == y@[i as int]);
    (x[i] as u32) < (y[i] as u32)
}

/// The scenario chosen when the workspace names none: the first name in the order of `String`.
pub open spec fn is_least(names: Seq<Seq<char>>, n: Seq<char>) -> bool {
    names.contains(n) && forall|j: int| 0 <= j < names.len() ==> text_le(n, #[trigger] names[j])
}

/// The default scenario: the one the workspace names, which must be a valid name of a
/// scenario it has, or else the first of its scenarios by name.
pub open spec fn default_configuration_ok(raw: Option<Seq<char>>, names: Seq<Seq<char>>, r: Seq<char>) -> bool {
    match raw {
        Some(n) => spec_configuration_name(n) == Some(r) && names.contains(r),
        None => is_least(names, r),
    }
}

pub open spec fn default_configuration_error(raw: Option<Seq<char>>, names: Seq<Seq<char>>) -> Option<Seq<char>> {
    match raw {
        Some(n) => match spec_configuration_name(n) {
            None => Some("Default scenario name is invalid: "@ + n),
            Some(m) => if names.contains(m) {
                None
            } else {
                Some("Default scenario does not exist: "@ + m)
            },
        },
        None => if names.len() == 0 {
            Some("Workspace has no usable scenarios"@)
        } else {
            None
        },
    }
}

pub fn normalize_default_configuration(raw_name: &Option<String>, names: &Vec<String>) -> (r: Result<String, String>)
    ensures
        match r {
            Ok(n) => default_configuration_error(raw_name.deep_view(), crate::text::views(names@)) is None
                && default_configuration_ok(raw_name.deep_view(), crate::text::views(names@), n@),
            Err(e) => default_configuration_error(raw_name.deep_view(), crate::text::views(names@))
                == Some(e@),
        },
{
    let ghost nv = crate::text::views(names@);
    match raw_name {
        Some(raw) => {
            let name = match normalize_configuration_name(raw.as_str()) {
                Some(n) => n,
                None => return Err(text_with("Default scenario name is invalid: ", raw.as_str())),
            };
            if !contains_id(names, name.as_str()) {
                return Err(text_with("Default scenario does not exist: ", name.as_str()));
            }
            Ok(name)
        },
        None => {
            if names.len() == 0 {
                return Err(copy_str("Workspace has no usable scenarios"));
            }
            let mut best: usize = 0;
            let mut i: usize = 1;
            proof {
                lemma_text_le_total(nv[0], nv[0]);
            }
            while i < names.len()
                invariant
                    nv == crate::text::views(names@),
                    1 <= i <= nv.len(),
                    best < i,
                    forall|j: int| 0 <= j < i ==> text_le(nv[best as int], #[trigger] nv[j]),
                decreases nv.len() - i,
            {
                assert(nv[i as int] == names@[i as int]@);
                assert(nv[best as int] == names@[best as int]@);
                if !text_le_exec(names[best].as_str(), names[i].as_str()) {
                    proof {
                        lemma_text_le_total(nv[best as int], nv[i as int]);
                        lemma_text_le_total(nv[i as int], nv[i as int]);
                        assert forall|j: int| 0 <= j < i + 1 implies text_le(nv[i as int], #[trigger] nv[j]) by {
                            if j < i {
                                lemma_text_le_transitive(nv[i as int], nv[best as int], nv[j]);
                            }
                        }
                    }
                    best = i;
                }
                i = i + 1;
            }
            assert(nv[best as int] == names@[best as int]@);
            assert(nv.contains(nv[best as int]));
            Ok(names[best].clone())
        },
    }
}

/// The workspace's name: the one its file gives, trimmed, else the name of the directory
/// that holds the workspace, else `PostUI`.
pub open spec fn spec_workspace_name(raw: Option<Seq<char>>, workspace: Seq<char>) -> Seq<char> {
    if raw matches Some(n) && trim(n).len() > 0 {
        trim(raw->0)
    } else {
        match spec_parent(workspace) {
            Some(p) => match file_name(p) {
                Some(f) => f,
                None => "PostUI"@,
            },
            None => "PostUI"@,
        }
    }
}

pub fn workspace_name(raw: &Option<String>, workspace: &str) -> (r: String)
    ensures
        r@ == spec_workspace_name(raw.deep_view(), workspace@),
{
    if let Some(n) = raw {
        let t = trim_str(n.as_str());
        if !t.as_str().is_empty() {
            return t;
        }
    }
    match parent_path(workspace) {
        Some(p) => match path_file_name(p.as_str()) {
            Some(f) => f,
            None => copy_str("PostUI"),
        },
        None => copy_str("PostUI"),
    }
}


/// In tolerant mode no request file stops the load.
pub proof fn lemma_tolerant_requests_run(srcs: Seq<RequestSource>, dt: u64, ds: bool, warnings: Seq<DiagnosticView>)
    ensures
        requests_run(srcs, dt, ds, true, warnings) is Ok,
    decreases srcs.len(),
{
    if srcs.len() > 0 {
        lemma_tolerant_requests_run(srcs.drop_last(), dt, ds, warnings);
    }
}

/// A scenario file fails only with a diagnostic.
pub proof fn lemma_configuration_errors_are_diagnostics(src: ConfigurationSource, ids: Seq<Seq<char>>)
    ensures
        configuration_outcome(src, ids) matches Err(e) ==> e is Config,
{
    match src.parsed {
        Err(d) => {},
        Ok(doc) => {
            lemma_overrides_errors_are_diagnostics(doc.overrides@, ids, src.path@, src.name@);
        },
    }
}

proof fn lemma_overrides_errors_are_diagnostics(
    raws: Seq<(String, RequestOverrideDocument)>,
    ids: Seq<Seq<char>>,
    path: Seq<char>,
    name: Seq<char>,
)
    ensures
        spec_overrides_run(raws, ids, path, name) matches Err(e) ==> e is Config,
    decreases raws.len(),
{
    if raws.len() > 0 {
        lemma_overrides_errors_are_diagnostics(raws.drop_last(), ids, path, name);
    }
}

/// In tolerant mode no scenario file stops the load.
pub proof fn lemma_tolerant_configurations_run(srcs: Seq<ConfigurationSource>, ids: Seq<Seq<char>>, warnings: Seq<DiagnosticView>)
    ensures
        configurations_run(srcs, ids, true, warnings) is Ok,
    decreases srcs.len(),
{
    if srcs.len() > 0 {
        lemma_tolerant_configurations_run(srcs.drop_last(), ids, warnings);
        lemma_configuration_errors_are_diagnostics(srcs.last(), ids);
    }
}


/// Recording a warning that is already recorded changes nothing.
pub proof fn law_recording_twice(ws: Seq<DiagnosticView>, w: DiagnosticView)
    ensures
        recorded(recorded(ws, w), w) == recorded(ws, w),
{
    let once = recorded(ws, w);
    if !(exists|j: int| 0 <= j < ws.len() && diagnostic_text(#[trigger] ws[j]) == diagnostic_text(w)) {
        assert(once[ws.len() as int] == w);
        assert(exists|j: int| 0 <= j < once.len() && diagnostic_text(#[trigger] once[j]) == diagnostic_text(w));
    }
}

/// A scenario file's overrides come out ordered by request id, as the map that keeps them by
/// id orders them.
pub proof fn law_loaded_overrides_ordered(
    raws: Seq<(String, RequestOverrideDocument)>,
    ids: Seq<Seq<char>>,
    path: Seq<char>,
    name: Seq<char>,
)
    ensures
        spec_overrides_run(raws, ids, path, name) matches Ok(ov) ==> ordered_by_name(ov),
    decreases raws.len(),
{
    if raws.len() > 0 {
        law_loaded_overrides_ordered(raws.drop_last(), ids, path, name);
        if let Ok(done) = spec_overrides_run(raws.drop_last(), ids, path, name) {
            if let Ok(id) = spec_normalize_request_id(raws.last().0@) {
                if let Ok(o) = spec_normalize_override(raws.last().1, id, name) {
                    lemma_insert_ordered(done, (id, o));
                }
            }
        }
    }
}

} // verus!
