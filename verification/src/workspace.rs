//! A whole workspace put together from its files: the workspace file's settings, the
//! requests and the scenarios, with the default scenario chosen.
use vstd::prelude::*;
use crate::config::{ApiRequest, ConfigurationView, NameValue, RequestView, WorkspaceConfiguration};
use crate::diagnostics::{
    invalid, standardize_error, standardized, ConfigDiagnostic, DiagnosticView, LoadError,
    LoadErrorView,
};
use crate::documents::{default_download_directory, default_timeout_seconds, default_upload_directory};
use crate::files::{resolve_directory, spec_resolve_directory};
use crate::loading::{
    default_configuration_error, default_configuration_ok, diagnostic_views, invalid_view,
    lemma_tolerant_configurations_run, lemma_tolerant_requests_run, named_views,
    normalize_configurations, normalize_default_configuration, normalize_requests, record_warning,
    recorded, request_views, requests_run, spec_normalize_configurations, spec_workspace_name,
    workspace_name, ConfigurationSource, RequestSource,
};
use crate::keyed::stash_view;
use crate::text::{copy_str, views};
use crate::variables::{normalize_variables, spec_normalize_variables, DefinitionView, RawVariableDefinition, VariableDefinition};
use crate::validation::{normalize_headers, spec_normalize_headers, timeout_msg, validate_timeout};

verus! {

/// The workspace file's settings as it writes them; what it leaves out has its default.
pub struct RawWorkspaceConfig {
    pub name: Option<String>,
    pub variables: Vec<(String, Option<RawVariableDefinition>)>,
    pub uploads: String,
    pub downloads: String,
    pub default_scenario: Option<String>,
    pub headers: Vec<NameValue>,
    pub timeout: u64,
    pub skip_ssl_verification: bool,
}

pub struct RawView {
    pub name: Option<Seq<char>>,
    pub variables: Seq<(String, Option<RawVariableDefinition>)>,
    pub uploads: Seq<char>,
    pub downloads: Seq<char>,
    pub default_scenario: Option<Seq<char>>,
    pub headers: Seq<(Seq<char>, Seq<char>)>,
    pub timeout: u64,
    pub skip_ssl_verification: bool,
}

impl View for RawWorkspaceConfig {
    type V = RawView;

    open spec fn view(&self) -> RawView {
        RawView {
            name: self.name.deep_view(),
            variables: self.variables@,
            uploads: self.uploads@,
            downloads: self.downloads@,
            default_scenario: self.default_scenario.deep_view(),
            headers: self.headers.deep_view(),
            timeout: self.timeout,
            skip_ssl_verification: self.skip_ssl_verification,
        }
    }
}

/// The settings of a workspace without a workspace file.
pub open spec fn default_raw() -> RawView {
    RawView {
        name: None,
        variables: Seq::empty(),
        uploads: "test_files"@,
        downloads: "temp"@,
        default_scenario: None,
        headers: Seq::empty(),
        timeout: 30,
        skip_ssl_verification: false,
    }
}

impl RawWorkspaceConfig {
    pub fn new() -> (r: RawWorkspaceConfig)
        ensures
            r@ == default_raw(),
    {
        let r = RawWorkspaceConfig {
            name: None,
            variables: Vec::new(),
            uploads: default_upload_directory(),
            downloads: default_download_directory(),
            default_scenario: None,
            headers: Vec::new(),
            timeout: default_timeout_seconds(),
            skip_ssl_verification: false,
        };
        assert(r@.headers =~= Seq::<(Seq<char>, Seq<char>)>::empty());
        r
    }
}

/// A loaded workspace.
pub struct RequestConfig {
    pub name: String,
    pub variables: Vec<(String, VariableDefinition)>,
    pub file_directory: String,
    pub download_directory: String,
    pub headers: Vec<NameValue>,
    pub configurations: Vec<(String, WorkspaceConfiguration)>,
    pub default_configuration: String,
    pub requests: Vec<ApiRequest>,
    pub timeout_seconds: u64,
    pub skip_ssl_verification: bool,
}

/// A loaded workspace as values, but for its default scenario.
pub struct WorkspaceView {
    pub name: Seq<char>,
    pub variables: Map<Seq<char>, DefinitionView>,
    pub file_directory: Seq<char>,
    pub download_directory: Seq<char>,
    pub headers: Seq<(Seq<char>, Seq<char>)>,
    pub configurations: Seq<(Seq<char>, ConfigurationView)>,
    pub requests: Seq<RequestView>,
    pub timeout_seconds: u64,
    pub skip_ssl_verification: bool,
}

impl RequestConfig {
    pub open spec fn view_parts(&self) -> WorkspaceView {
        WorkspaceView {
            name: self.name@,
            variables: stash_view(self.variables@),
            file_directory: self.file_directory@,
            download_directory: self.download_directory@,
            headers: self.headers.deep_view(),
            configurations: named_views(self.configurations@),
            requests: request_views(self.requests@),
            timeout_seconds: self.timeout_seconds,
            skip_ssl_verification: self.skip_ssl_verification,
        }
    }
}

pub open spec fn request_ids(rs: Seq<RequestView>) -> Seq<Seq<char>> {
    rs.map_values(|r: RequestView| r.id)
}

pub open spec fn configuration_names(cs: Seq<(Seq<char>, ConfigurationView)>) -> Seq<Seq<char>> {
    cs.map_values(|c: (Seq<char>, ConfigurationView)| c.0)
}

/// One attempt at a workspace from the workspace file's settings: its variables, headers and timeout
/// checked, the upload and download directories resolved, the requests and scenarios
/// normalized and the default scenario checked, each refused against the workspace file;
/// with the warnings recorded on the way. A success gives the workspace and its scenario
/// names, from which the default is chosen.
pub open spec fn spec_attempt(
    path: Seq<char>,
    raw: RawView,
    workspace: Seq<char>,
    rsrcs: Seq<RequestSource>,
    csrcs: Seq<ConfigurationSource>,
    tolerant: bool,
    w0: Seq<DiagnosticView>,
) -> (Result<WorkspaceView, LoadErrorView>, Seq<DiagnosticView>) {
    match spec_normalize_variables(raw.variables) {
        Err(m) => (Err(invalid_view(path, "variables"@, m)), w0),
        Ok(variables) => match spec_normalize_headers(raw.headers) {
            Err(m) => (Err(invalid_view(path, "headers"@, m)), w0),
            Ok(headers) => if raw.timeout == 0 {
                (Err(invalid_view(path, "timeout"@, timeout_msg())), w0)
            } else {
                match requests_run(rsrcs, raw.timeout, raw.skip_ssl_verification, tolerant, w0) {
                    Err(d) => (Err(LoadErrorView::Config(d)), w0),
                    Ok(rs) => match spec_normalize_configurations(csrcs, request_ids(rs.requests), tolerant, rs.warnings) {
                        Err(e) => (Err(standardized(e, path, "scenarios"@)), rs.warnings),
                        Ok(cs) => match default_configuration_error(raw.default_scenario, configuration_names(cs.configurations)) {
                            Some(m) => (Err(invalid_view(path, "default_scenario"@, m)), cs.warnings),
                            None => (
                                Ok(
                                    WorkspaceView {
                                        name: spec_workspace_name(raw.name, workspace),
                                        variables,
                                        file_directory: spec_resolve_directory(workspace, raw.uploads),
                                        download_directory: spec_resolve_directory(workspace, raw.downloads),
                                        headers,
                                        configurations: cs.configurations,
                                        requests: rs.requests,
                                        timeout_seconds: raw.timeout,
                                        skip_ssl_verification: raw.skip_ssl_verification,
                                    },
                                ),
                                cs.warnings,
                            ),
                        },
                    },
                }
            },
        }
    }
}

fn ids_of(requests: &Vec<ApiRequest>) -> (r: Vec<String>)
    ensures
        views(r@) == request_ids(request_views(requests@)),
{
    let mut out: Vec<String> = Vec::new();
    let mut i: usize = 0;
    while i < requests.len()
        invariant
            i <= requests@.len(),
            views(out@) == request_ids(request_views(requests@.take(i as int))),
        decreases requests@.len() - i,
    {
        let ghost before = views(out@);
        out.push(copy_str(requests[i].id.as_str()));
        proof {
            assert(views(out@) =~= before.push(requests@[i as int].id@));
            assert(request_ids(request_views(requests@.take(i + 1))) =~= request_ids(
                request_views(requests@.take(i as int)),
            ).push(requests@[i as int].id@));
        }
        i = i + 1;
    }
    proof {
        assert(requests@.take(requests@.len() as int) =~= requests@);
    }
    out
}

fn names_of(configurations: &Vec<(String, WorkspaceConfiguration)>) -> (r: Vec<String>)
    ensures
        views(r@) == configuration_names(named_views(configurations@)),
{
    let mut out: Vec<String> = Vec::new();
    let mut i: usize = 0;
    while i < configurations.len()
        invariant
            i <= configurations@.len(),
            views(out@) == configuration_names(named_views(configurations@.take(i as int))),
        decreases configurations@.len() - i,
    {
        let ghost before = views(out@);
        out.push(copy_str(configurations[i].0.as_str()));
        proof {
            assert(views(out@) =~= before.push(configurations@[i as int].0@));
            assert(configuration_names(named_views(configurations@.take(i + 1))) =~= configuration_names(
                named_views(configurations@.take(i as int)),
            ).push(configurations@[i as int].0@));
        }
        i = i + 1;
    }
    proof {
        assert(configurations@.take(configurations@.len() as int) =~= configurations@);
    }
    out
}

/// Puts a workspace together from the workspace file's settings, read from `path`, and
/// the request and scenario files of `workspace`.
pub fn normalize_workspace(
    path: &str,
    raw: &RawWorkspaceConfig,
    workspace: &str,
    request_sources: &Vec<RequestSource>,
    configuration_sources: &Vec<ConfigurationSource>,
    tolerant: bool,
    warnings: &mut Vec<ConfigDiagnostic>,
) -> (r: Result<RequestConfig, LoadError>)
    ensures
        ({
            let (result, ws) = spec_attempt(
                path@,
                raw@,
                workspace@,
                request_sources@,
                configuration_sources@,
                tolerant,
                diagnostic_views(old(warnings)@),
            );
            &&& diagnostic_views(final(warnings)@) == ws
            &&& match r {
                Ok(c) => result == Ok::<WorkspaceView, LoadErrorView>(c.view_parts())
                    && default_configuration_ok(
                    raw@.default_scenario,
                    configuration_names(c.view_parts().configurations),
                    c.default_configuration@,
                ),
                Err(e) => result == Err::<WorkspaceView, LoadErrorView>(e@),
            }
        }),
{
    let ghost w0 = diagnostic_views(warnings@);
    let variables = match normalize_variables(&raw.variables) {
        Ok(v) => v,
        Err(m) => {
            return Err(invalid(path, copy_str("variables"), m));
        },
    };
    let headers = match normalize_headers(&raw.headers) {
        Ok(h) => h,
        Err(m) => {
            return Err(invalid(path, copy_str("headers"), m));
        },
    };
    let timeout_seconds = match validate_timeout(raw.timeout) {
        Ok(t) => t,
        Err(m) => {
            return Err(invalid(path, copy_str("timeout"), m));
        },
    };
    let file_directory = resolve_directory(workspace, raw.uploads.as_str());
    let download_directory = resolve_directory(workspace, raw.downloads.as_str());
    let requests = match normalize_requests(
        request_sources,
        timeout_seconds,
        raw.skip_ssl_verification,
        tolerant,
        warnings,
    ) {
        Ok(rs) => rs,
        Err(e) => {
            proof {
                if tolerant {
                    lemma_tolerant_requests_run(request_sources@, timeout_seconds, raw.skip_ssl_verification, w0);
                }
            }
            return Err(e);
        },
    };
    let ghost w1 = diagnostic_views(warnings@);
    let ids = ids_of(&requests);
    let configurations = match normalize_configurations(configuration_sources, &ids, tolerant, warnings) {
        Ok(cs) => cs,
        Err(e) => {
            proof {
                if tolerant {
                    lemma_tolerant_configurations_run(configuration_sources@, views(ids@), w1);
                }
            }
            return Err(standardize_error(e, path, copy_str("scenarios")));
        },
    };
    let names = names_of(&configurations);
    let default_configuration = match normalize_default_configuration(&raw.default_scenario, &names) {
        Ok(n) => n,
        Err(m) => {
            return Err(invalid(path, copy_str("default_scenario"), m));
        },
    };
    let name = workspace_name(&raw.name, workspace);
    Ok(
        RequestConfig {
            name,
            variables,
            file_directory,
            download_directory,
            headers,
            configurations,
            default_configuration,
            requests,
            timeout_seconds,
            skip_ssl_verification: raw.skip_ssl_verification,
        },
    )
}

/// The warning that a failed attempt leaves in tolerant mode, and the attempt with the
/// default settings that follows it.
pub open spec fn spec_load(
    path: Seq<char>,
    raw: Option<Result<RawView, DiagnosticView>>,
    workspace: Seq<char>,
    rsrcs: Seq<RequestSource>,
    csrcs: Seq<ConfigurationSource>,
    tolerant: bool,
    w0: Seq<DiagnosticView>,
) -> (Result<(WorkspaceView, Option<Seq<char>>), LoadErrorView>, Seq<DiagnosticView>) {
    let (first, w1) = match raw {
        None => (Ok(default_raw()), w0),
        Some(Ok(r)) => (Ok(r), w0),
        Some(Err(d)) => if tolerant {
            (Ok(default_raw()), recorded(w0, d))
        } else {
            (Err(d), w0)
        },
    };
    match first {
        Err(d) => (Err(LoadErrorView::Config(d)), w1),
        Ok(r) => {
            let (result, w2) = spec_attempt(path, r, workspace, rsrcs, csrcs, tolerant, w1);
            match result {
                Ok(v) => (Ok((v, r.default_scenario)), w2),
                Err(e) => match e {
                    LoadErrorView::Config(d) => if tolerant {
                        let (retry, w3) = spec_attempt(
                            path,
                            default_raw(),
                            workspace,
                            rsrcs,
                            csrcs,
                            tolerant,
                            recorded(w2, d),
                        );
                        match retry {
                            Ok(v) => (Ok((v, None)), w3),
                            Err(e2) => (Err(e2), w3),
                        }
                    } else {
                        (Err(e), w2)
                    },
                    LoadErrorView::Other(_) => (Err(e), w2),
                },
            }
        },
    }
}

/// Loads a workspace from its parsed files: `raw` is the workspace file's settings, none
/// when the file is missing, or the diagnostic of a file that could not be read as one.
/// In tolerant mode a broken workspace file is a warning and the defaults stand in.
pub fn load_workspace(
    path: &str,
    raw: Option<Result<RawWorkspaceConfig, ConfigDiagnostic>>,
    workspace: &str,
    request_sources: &Vec<RequestSource>,
    configuration_sources: &Vec<ConfigurationSource>,
    tolerant: bool,
    warnings: &mut Vec<ConfigDiagnostic>,
) -> (r: Result<RequestConfig, LoadError>)
    ensures
        ({
            let (result, ws) = spec_load(
                path@,
                match raw {
                    None => None,
                    Some(Ok(x)) => Some(Ok(x@)),
                    Some(Err(d)) => Some(Err(d@)),
                },
                workspace@,
                request_sources@,
                configuration_sources@,
                tolerant,
                diagnostic_views(old(warnings)@),
            );
            &&& diagnostic_views(final(warnings)@) == ws
            &&& match r {
                Ok(c) => result matches Ok((v, used_default)) && v == c.view_parts() && default_configuration_ok(
                    used_default,
                    configuration_names(v.configurations),
                    c.default_configuration@,
                ),
                Err(e) => result == Err::<(WorkspaceView, Option<Seq<char>>), LoadErrorView>(e@),
            }
        }),
{
    let settings = match raw {
        None => RawWorkspaceConfig::new(),
        Some(Ok(x)) => x,
        Some(Err(d)) => {
            if tolerant {
                record_warning(warnings, d);
                RawWorkspaceConfig::new()
            } else {
                return Err(LoadError::Config(d));
            }
        },
    };
    match normalize_workspace(path, &settings, workspace, request_sources, configuration_sources, tolerant, warnings) {
        Ok(c) => Ok(c),
        Err(e) => {
            if !tolerant {
                return Err(e);
            }
            match e {
                LoadError::Config(d) => {
                    record_warning(warnings, d);
                    let defaults = RawWorkspaceConfig::new();
                    normalize_workspace(path, &defaults, workspace, request_sources, configuration_sources, tolerant, warnings)
                },
                LoadError::Other(m) => Err(LoadError::Other(m)),
            }
        },
    }
}


proof fn lemma_attempt_errors_are_diagnostics(
    path: Seq<char>,
    raw: RawView,
    workspace: Seq<char>,
    rsrcs: Seq<RequestSource>,
    csrcs: Seq<ConfigurationSource>,
    tolerant: bool,
    w0: Seq<DiagnosticView>,
)
    ensures
        spec_attempt(path, raw, workspace, rsrcs, csrcs, tolerant, w0).0 matches Err(e) ==> e is Config,
{
}

/// In tolerant mode loading always gives a workspace: what fails becomes a warning, and a
/// workspace file that fails is replaced by the defaults.
pub proof fn law_tolerant_load_succeeds(
    path: Seq<char>,
    raw: Option<Result<RawView, DiagnosticView>>,
    workspace: Seq<char>,
    rsrcs: Seq<RequestSource>,
    csrcs: Seq<ConfigurationSource>,
    w0: Seq<DiagnosticView>,
)
    ensures
        spec_load(path, raw, workspace, rsrcs, csrcs, true, w0).0 is Ok,
{
    let w1 = match raw {
        Some(Err(d)) => recorded(w0, d),
        _ => w0,
    };
    let r = match raw {
        Some(Ok(x)) => x,
        _ => default_raw(),
    };
    lemma_attempt_errors_are_diagnostics(path, r, workspace, rsrcs, csrcs, true, w1);
    let (first, w2) = spec_attempt(path, r, workspace, rsrcs, csrcs, true, w1);
    if first is Err {
        let d = first->Err_0->Config_0;
        let w3 = recorded(w2, d);
        assert(spec_normalize_headers(Seq::<(Seq<char>, Seq<char>)>::empty()) == Ok::<
            Seq<(Seq<char>, Seq<char>)>,
            Seq<char>,
        >(Seq::empty()));
        lemma_tolerant_requests_run(rsrcs, 30, false, w3);
        let rs = requests_run(rsrcs, 30, false, true, w3)->Ok_0;
        lemma_tolerant_configurations_run(csrcs, request_ids(rs.requests), rs.warnings);
    }
}

/// The scenario a run starts in: the one asked for when the workspace has it, else the
/// default; asking for one it lacks is refused with the names it has, in order.
pub open spec fn spec_scenario_choice(names: Seq<Seq<char>>, default: Seq<char>, requested: Option<Seq<char>>) -> Result<
    Seq<char>,
    Seq<char>,
> {
    match requested {
        None => Ok(default),
        Some(s) => if names.contains(s) {
            Ok(s)
        } else {
            Err("Scenario "@ + s + " does not exist; available scenarios: "@ + crate::text::join(names, ", "@))
        },
    }
}

pub fn choose_scenario(config: &RequestConfig, requested: Option<&str>) -> (r: Result<String, String>)
    ensures
        match r {
            Ok(n) => spec_scenario_choice(configuration_names(config.view_parts().configurations), config.default_configuration@, match requested {
                Some(s) => Some(s@),
                None => None,
            }) == Ok::<Seq<char>, Seq<char>>(n@),
            Err(e) => spec_scenario_choice(configuration_names(config.view_parts().configurations), config.default_configuration@, match requested {
                Some(s) => Some(s@),
                None => None,
            }) == Err::<Seq<char>, Seq<char>>(e@),
        },
{
    let names = names_of(&config.configurations);
    match requested {
        None => Ok(copy_str(config.default_configuration.as_str())),
        Some(s) => {
            let mut i: usize = 0;
            while i < names.len()
                invariant
                    i <= names@.len(),
                    views(names@) == configuration_names(config.view_parts().configurations),
                    requested == Some(s),
                    forall|j: int| 0 <= j < i ==> (#[trigger] names@[j])@ != s@,
                decreases names@.len() - i,
            {
                if crate::text::eq_str(names[i].as_str(), s) {
                    assert(views(names@)[i as int] == s@);
                    assert(views(names@).contains(s@));
                    assert(configuration_names(config.view_parts().configurations).contains(s@));
                    return Ok(copy_str(s));
                }
                i = i + 1;
            }
            proof {
                if views(names@).contains(s@) {
                    let k = choose|k: int| 0 <= k < views(names@).len() && views(names@)[k] == s@;
                    assert(names@[k]@ == s@);
                }
            }
            let mut e = copy_str("Scenario ");
            crate::text::push_str(&mut e, s);
            crate::text::push_str(&mut e, " does not exist; available scenarios: ");
            let joined = crate::text::join_strs(names.as_slice(), ", ");
            crate::text::push_str(&mut e, joined.as_str());
            Err(e)
        },
    }
}

} // verus!
