use postui::config::{ApiRequest, NameValue, WorkspaceConfiguration};
use postui::request_session::RequestSession;
use postui::session::{HeaderRow, HeaderSource};
use postui::variables::{normalize_variables, RawVariableDefinition, VariableDefinition};
use postui::workspace_session::{initial_temporary_variables, initial_variables, WorkspaceSession};

fn header(name: &str, value: &str) -> NameValue {
    NameValue { name: name.to_string(), value: value.to_string() }
}

fn pairs(items: &[(&str, &str)]) -> Vec<(String, String)> {
    items.iter().map(|(a, b)| (a.to_string(), b.to_string())).collect()
}

fn sorted(mut v: Vec<(String, String)>) -> Vec<(String, String)> {
    v.sort();
    v
}

fn def(default: Option<&str>, temporary: bool) -> VariableDefinition {
    VariableDefinition { default: default.map(|d| d.to_string()), secret: false, temporary }
}

fn request(id: &str) -> ApiRequest {
    ApiRequest {
        id: id.to_string(),
        name: id.to_string(),
        method: "GET".to_string(),
        url: "https://a.test".to_string(),
        timeout_seconds: 30,
        skip_ssl_verification: false,
        description: String::new(),
        headers: vec![header("Accept", "*/*")],
        body_parts: Vec::new(),
        query_parts: Vec::new(),
        form: Vec::new(),
        files: Vec::new(),
        extracts: Vec::new(),
    }
}

fn scenario(path: Option<&str>) -> WorkspaceConfiguration {
    WorkspaceConfiguration {
        path: path.map(|p| p.to_string()),
        variables: Vec::new(),
        headers: Vec::new(),
        timeout_seconds: None,
        skip_ssl_verification: None,
        request_overrides: Vec::new(),
    }
}

#[test]
fn scenario_variables_start_from_their_definitions() {
    let workspace = vec![("host".to_string(), def(Some("a.test"), false)), ("user".to_string(), def(None, false))];
    let scenario_vars = vec![("host".to_string(), def(Some("b.test"), false))];
    let editable = vec!["host".to_string(), "user".to_string(), "missing".to_string(), "host".to_string()];
    assert_eq!(
        sorted(initial_variables(&editable, &workspace, &scenario_vars)),
        pairs(&[("host", "b.test"), ("missing", ""), ("user", "")])
    );
    assert_eq!(
        sorted(initial_variables(&editable, &workspace, &Vec::new())),
        pairs(&[("host", "a.test"), ("missing", ""), ("user", "")])
    );
}

#[test]
fn temporary_variables_are_those_marked_temporary() {
    let workspace = vec![("otp".to_string(), def(Some("0000"), true)), ("host".to_string(), def(Some("h"), false))];
    let scenario_vars = vec![("code".to_string(), def(None, true))];
    let used = vec!["otp".to_string(), "host".to_string(), "code".to_string(), "nope".to_string()];
    assert_eq!(
        sorted(initial_temporary_variables(&used, &workspace, &scenario_vars)),
        pairs(&[("code", ""), ("otp", "0000")])
    );
}

#[test]
fn switching_scenarios_keeps_variables_and_edits() {
    let default = scenario(None);
    let staging = scenario(Some("/w/scenarios/staging.yaml"));
    let configurations = vec![
        ("default".to_string(), scenario(None)),
        ("staging".to_string(), scenario(Some("/w/scenarios/staging.yaml"))),
    ];
    let sessions: Vec<RequestSession<()>> = vec![
        RequestSession::new(request("a"), &default, Vec::new()),
        RequestSession::new(request("b"), &default, Vec::new()),
    ];
    let stored = vec![("default".to_string(), pairs(&[("host", "a.test")]))];
    let mut ws = WorkspaceSession::from_config("default".to_string(), stored, sessions);
    assert_eq!(ws.selected_request, Some(0));
    assert_eq!(ws.variables, pairs(&[("host", "a.test")]));
    assert!(ws.current().is_some());
    assert_eq!(ws.request("b").map(|s| s.source.id.clone()), Some("b".to_string()));
    assert!(ws.request("c").is_none());
    assert!(!ws.should_switch("default", &configurations));
    assert!(!ws.should_switch("prod", &configurations));
    assert!(ws.should_switch("staging", &configurations));

    ws.variables[0].1 = "edited.test".to_string();
    ws.requests[0].draft.headers.push(HeaderRow {
        name: "X-Edit".to_string(),
        value: "1".to_string(),
        enabled: true,
        source: HeaderSource::Request,
    });
    let edited_headers = ws.requests[0].draft.headers.len();

    let mut default_cfg = scenario(None);
    ws.commit_configuration(&mut default_cfg);
    assert_eq!(ws.requests[0].source.headers.len(), 2);
    ws.switch_to("staging", &staging, pairs(&[("host", "s.test")]), vec![Vec::new(), Vec::new()]);
    assert_eq!(ws.active_configuration, "staging");
    assert_eq!(ws.variables, pairs(&[("host", "s.test")]));

    ws.variables[0].1 = "other.test".to_string();
    let mut staging_cfg = scenario(Some("/w/scenarios/staging.yaml"));
    ws.commit_configuration(&mut staging_cfg);
    ws.switch_to("default", &default_cfg, pairs(&[("host", "ignored")]), vec![Vec::new(), Vec::new()]);
    assert_eq!(ws.variables, pairs(&[("host", "edited.test")]));
    assert_eq!(ws.requests[0].draft.headers.len(), edited_headers);
}

#[test]
fn committing_into_a_scenario_file_writes_overrides() {
    let staging = scenario(Some("/w/scenarios/staging.yaml"));
    let sessions: Vec<RequestSession<()>> = vec![RequestSession::new(request("a"), &staging, Vec::new())];
    let mut ws = WorkspaceSession::from_config("staging".to_string(), Vec::new(), sessions);
    assert!(ws.variables.is_empty());
    ws.requests[0].draft.method = "POST".to_string();
    let mut cfg = scenario(Some("/w/scenarios/staging.yaml"));
    ws.commit_configuration(&mut cfg);
    assert_eq!(ws.requests[0].source.method, "GET");
    assert_eq!(cfg.request_overrides.len(), 1);
    assert_eq!(cfg.request_overrides[0].0, "a");
    assert_eq!(cfg.request_overrides[0].1.method.as_deref(), Some("POST"));
}

#[test]
fn variables_in_files_are_normalized() {
    let raw = vec![
        ("{{ host }}".to_string(), Some(RawVariableDefinition::Value("a.test".to_string()))),
        ("otp".to_string(), None),
        (
            "token".to_string(),
            Some(RawVariableDefinition::Definition { value: None, secret: true, temporary: false }),
        ),
    ];
    let vars = normalize_variables(&raw).unwrap();
    assert_eq!(vars.len(), 3);
    assert_eq!(vars.iter().find(|v| v.0 == "host").unwrap().1.default.as_deref(), Some("a.test"));
    let token = &vars.iter().find(|v| v.0 == "token").unwrap().1;
    assert!(token.secret && !token.temporary);
    assert!(vars.iter().find(|v| v.0 == "otp").unwrap().1.temporary);
    let unordered = vec![("zeta".to_string(), None), ("Alpha".to_string(), None), ("beta".to_string(), None)];
    let names: Vec<String> = normalize_variables(&unordered).unwrap().into_iter().map(|v| v.0).collect();
    assert_eq!(names, vec!["Alpha".to_string(), "beta".to_string(), "zeta".to_string()]);
    let bad = vec![("{{a".to_string(), None)];
    assert_eq!(normalize_variables(&bad).err().unwrap(), "Variable name is invalid: {{a");
    let twice = vec![("a".to_string(), None), ("{{a}}".to_string(), None)];
    assert_eq!(
        normalize_variables(&twice).err().unwrap(),
        "Variable name is declared more than once: a"
    );
}
