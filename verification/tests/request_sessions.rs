use postui::config::{ApiRequest, NameValue, RequestOverride, WorkspaceConfiguration};
use postui::request_session::RequestSession;
use postui::session::{HeaderRow, HeaderSource, RequestStatus};

fn header(name: &str, value: &str) -> NameValue {
    NameValue { name: name.to_string(), value: value.to_string() }
}

fn vars(pairs: &[(&str, &str)]) -> Vec<(String, String)> {
    pairs.iter().map(|(n, v)| (n.to_string(), v.to_string())).collect()
}

fn request() -> ApiRequest {
    ApiRequest {
        id: "requests/a.yaml".to_string(),
        name: "A".to_string(),
        method: "GET".to_string(),
        url: "https://a.test".to_string(),
        timeout_seconds: 30,
        skip_ssl_verification: false,
        description: String::new(),
        headers: vec![header("Accept", "*/*")],
        body_parts: Vec::new(),
        query_parts: Vec::new(),
        form: Vec::new(),
        files: Vec::new(),
        extracts: Vec::new(),
    }
}

fn scenario(path: Option<&str>, overrides: Vec<(String, RequestOverride)>) -> WorkspaceConfiguration {
    WorkspaceConfiguration {
        path: path.map(|p| p.to_string()),
        variables: Vec::new(),
        headers: Vec::new(),
        timeout_seconds: None,
        skip_ssl_verification: None,
        request_overrides: overrides,
    }
}

fn header_override(headers: Vec<NameValue>) -> RequestOverride {
    RequestOverride {
        method: None,
        url: None,
        timeout_seconds: None,
        skip_ssl_verification: None,
        headers: Some(headers),
        query_parts: None,
        body_parts: None,
        form: None,
        files: None,
        extracts: None,
    }
}

fn names(rows: &[HeaderRow]) -> Vec<(String, String, bool)> {
    rows.iter().map(|r| (r.name.clone(), r.value.clone(), r.enabled)).collect()
}

#[test]
fn switching_scenarios_keeps_edits_of_each() {
    let default = scenario(None, Vec::new());
    let staging = scenario(
        Some("/w/scenarios/staging.yaml"),
        vec![("requests/a.yaml".to_string(), header_override(vec![header("X-Stage", "1")]))],
    );
    let mut session: RequestSession<()> = RequestSession::new(request(), &default, vars(&[("token", "t0")]));
    assert_eq!(session.status(), RequestStatus::NotSent);
    session.draft.headers.push(HeaderRow {
        name: "X-Edit".to_string(),
        value: "mine".to_string(),
        enabled: true,
        source: HeaderSource::Request,
    });
    session.temporary_variables[0].1 = "edited".to_string();
    let edited = names(&session.draft.headers);

    session.activate_configuration("default", "staging", &staging, vars(&[("token", "s0")]));
    assert_eq!(names(&session.draft.headers), vec![("X-Stage".to_string(), "1".to_string(), true)]);
    assert_eq!(session.temporary_variables, vars(&[("token", "s0")]));

    session.activate_configuration("staging", "default", &default, vars(&[("token", "ignored")]));
    assert_eq!(names(&session.draft.headers), edited);
    assert_eq!(session.temporary_variables, vars(&[("token", "edited")]));
}

#[test]
fn left_header_edits_are_noticed() {
    let default = scenario(None, Vec::new());
    let staging = scenario(Some("/w/s.yaml"), Vec::new());
    let configurations = vec![
        ("default".to_string(), scenario(None, Vec::new())),
        ("staging".to_string(), scenario(Some("/w/s.yaml"), Vec::new())),
    ];
    let baseline = request();
    let mut session: RequestSession<()> = RequestSession::new(request(), &default, Vec::new());
    session.activate_configuration("default", "staging", &staging, Vec::new());
    assert!(!session.has_inactive_header_changes(&baseline, &configurations));

    session.activate_configuration("staging", "default", &default, Vec::new());
    session.draft.headers.clear();
    session.activate_configuration("default", "staging", &staging, Vec::new());
    assert!(session.has_inactive_header_changes(&baseline, &configurations));

    let only_staging = vec![("staging".to_string(), scenario(Some("/w/s.yaml"), Vec::new()))];
    let mut other: RequestSession<()> = RequestSession::new(request(), &default, Vec::new());
    other.activate_configuration("gone", "staging", &staging, Vec::new());
    assert!(other.has_inactive_header_changes(&baseline, &only_staging));
}

#[test]
fn temporary_variables_follow_the_request() {
    let default = scenario(None, Vec::new());
    let mut session: RequestSession<()> =
        RequestSession::new(request(), &default, vars(&[("a", "1"), ("b", "2")]));
    session.temporary_variables[1].1 = "edited".to_string();
    session.sync_temporary_variables(&vars(&[("b", "first"), ("c", "3")]));
    let mut got = session.temporary_variables.clone();
    got.sort();
    assert_eq!(got, vars(&[("b", "edited"), ("c", "3")]));
    session.reset_temporary_variables(vars(&[("z", "0")]));
    assert_eq!(session.temporary_variables, vars(&[("z", "0")]));
}
