use postui::config::NameValue;
use postui::diagnostics::{
    from_error, invalid, is_config_error, is_not_found, standardize_error, yaml_detail,
    ConfigDiagnostic, DiagnosticKind, LoadError,
};
use postui::documents::{ConfigurationDocument, RequestDocument, RequestOverrideDocument};
use postui::error_page::ErrorPage;
use postui::files::ParsedRequest;
use postui::variables::RawVariableDefinition;
use postui::workspace::{choose_scenario, load_workspace, normalize_workspace, RawWorkspaceConfig};
use postui::loading::{
    default_configuration, normalize_configuration, normalize_configurations,
    normalize_default_configuration, normalize_requests, record_warning, workspace_name,
    ConfigurationSource, RequestSource,
};

fn document(url: &str) -> RequestDocument {
    RequestDocument {
        name: String::new(),
        description: String::new(),
        method: "GET".to_string(),
        url: url.to_string(),
        timeout: None,
        skip_ssl_verification: None,
        headers: Vec::new(),
        params: Vec::new(),
        body: None,
        form: Vec::new(),
        files: Vec::new(),
        extracts: Vec::new(),
    }
}

fn source(id: &str, url: &str) -> RequestSource {
    RequestSource {
        path: format!("/w/.postui/{id}"),
        parsed: Ok(ParsedRequest { id: id.to_string(), document: document(url) }),
    }
}

fn configuration(overrides: Vec<(String, RequestOverrideDocument)>) -> ConfigurationDocument {
    ConfigurationDocument {
        variables: Vec::new(),
        headers: vec![NameValue { name: "X-Env".to_string(), value: "test".to_string() }],
        timeout: None,
        skip_ssl_verification: None,
        overrides,
    }
}

fn url_override(url: &str) -> RequestOverrideDocument {
    RequestOverrideDocument {
        method: None,
        url: Some(url.to_string()),
        timeout: None,
        skip_ssl_verification: None,
        headers: None,
        params: None,
        body: None,
        form: None,
        files: None,
        extracts: None,
    }
}

#[test]
fn diagnostics_display_code_file_field_and_detail() {
    let d = ConfigDiagnostic::parse("/w/a.yaml", "request".to_string(), "bad indent".to_string(), Some((3, 7)));
    assert_eq!(
        d.message(),
        "error[CONFIG_PARSE]: Invalid YAML\n  file: /w/a.yaml\n  field: request\n  location: line 3, column 7\n  detail: bad indent"
    );
    let r = ConfigDiagnostic::read("/w/b.yaml", true, "missing".to_string());
    assert!(r.is_not_found());
    assert!(matches!(r.kind(), DiagnosticKind::Read { not_found: true }));
    assert_eq!(
        r.message(),
        "error[CONFIG_READ]: Could not read configuration\n  file: /w/b.yaml\n  field: configuration file\n  detail: missing"
    );
}

#[test]
fn load_errors_carry_diagnostics() {
    let e = invalid("/w/p.yaml", "timeout".to_string(), "zero".to_string());
    assert!(is_config_error(&e));
    assert!(!is_not_found(&e));
    assert_eq!(from_error(&e).map(|d| d.field().to_string()), Some("timeout".to_string()));
    let other = LoadError::Other("disk on fire".to_string());
    assert!(from_error(&other).is_none());
    let standardized = standardize_error(other, "/w/p.yaml", "workspace".to_string());
    assert_eq!(
        standardized.text(),
        "error[CONFIG_INVALID]: Invalid configuration\n  file: /w/p.yaml\n  field: workspace\n  detail: disk on fire"
    );
}

#[test]
fn yaml_details_drop_the_position() {
    assert_eq!(yaml_detail("error: line 2 column 5: mapping values are not allowed\nmore"), "mapping values are not allowed");
    assert_eq!(yaml_detail("  plain failure  "), "plain failure");
    assert_eq!(yaml_detail("key: value"), "key: value");
}

#[test]
fn warnings_are_recorded_once() {
    let mut warnings = Vec::new();
    let w = ConfigDiagnostic::invalid("/w/a.yaml", "request".to_string(), "x".to_string());
    record_warning(&mut warnings, w.clone());
    record_warning(&mut warnings, w);
    assert_eq!(warnings.len(), 1);
}

#[test]
fn strict_loading_stops_at_the_first_problem() {
    let sources = vec![source("requests/a.yaml", "https://a.test"), source("requests/b.yaml", " ")];
    let mut warnings = Vec::new();
    let error = normalize_requests(&sources, 30, false, false, &mut warnings).err().unwrap();
    assert_eq!(
        error.text(),
        "error[CONFIG_INVALID]: Invalid configuration\n  file: /w/.postui/requests/b.yaml\n  field: request\n  detail: Request requests/b.yaml is missing url"
    );
    assert!(warnings.is_empty());
}

#[test]
fn tolerant_loading_keeps_the_rest() {
    let sources = vec![
        source("requests/a.yaml", "https://a.test"),
        source("requests/b.yaml", " "),
        source("requests/a.yaml", "https://again.test"),
        source("requests/c.yaml", "https://c.test"),
    ];
    let mut warnings = Vec::new();
    let requests = normalize_requests(&sources, 30, false, true, &mut warnings).ok().unwrap();
    let ids: Vec<&str> = requests.iter().map(|r| r.id.as_str()).collect();
    assert_eq!(ids, vec!["requests/a.yaml", "requests/c.yaml"]);
    assert_eq!(warnings.len(), 2);
    assert_eq!(warnings[1].detail(), "Request id is duplicated: requests/a.yaml");
    assert_eq!(warnings[1].field(), "id");
}

#[test]
fn scenarios_check_their_overrides() {
    let ids = vec!["requests/a.yaml".to_string()];
    let ok = normalize_configuration(
        "/w/.postui/scenarios/test.yaml",
        "test",
        &configuration(vec![("a.yaml".to_string(), url_override("https://t.test"))]),
        &ids,
    )
    .ok()
    .unwrap();
    assert_eq!(ok.request_overrides.len(), 1);
    assert_eq!(ok.request_overrides[0].0, "requests/a.yaml");
    assert_eq!(ok.path.as_deref(), Some("/w/.postui/scenarios/test.yaml"));

    let missing = normalize_configuration(
        "/w/s.yaml",
        "test",
        &configuration(vec![("nope.yaml".to_string(), url_override("https://t.test"))]),
        &ids,
    )
    .err()
    .unwrap();
    let d = from_error(&missing).unwrap();
    assert_eq!(d.field(), "overrides");
    assert_eq!(d.detail(), "Referenced request does not exist: nope.yaml");

    let twice = normalize_configuration(
        "/w/s.yaml",
        "test",
        &configuration(vec![
            ("a.yaml".to_string(), url_override("https://1.test")),
            ("./a.yaml".to_string(), url_override("https://2.test")),
        ]),
        &ids,
    )
    .err()
    .unwrap();
    assert_eq!(from_error(&twice).unwrap().detail(), "Request override is declared more than once: requests/a.yaml");
}

#[test]
fn tolerant_scenarios_skip_broken_files() {
    let ids = vec!["requests/a.yaml".to_string()];
    let sources = vec![
        ConfigurationSource {
            name: "dev".to_string(),
            path: "/w/scenarios/dev.yaml".to_string(),
            parsed: Ok(configuration(Vec::new())),
        },
        ConfigurationSource {
            name: "bad".to_string(),
            path: "/w/scenarios/bad.yaml".to_string(),
            parsed: Err(ConfigDiagnostic::parse("/w/scenarios/bad.yaml", "scenario".to_string(), "oops".to_string(), None)),
        },
    ];
    let mut warnings = Vec::new();
    let kept = normalize_configurations(&sources, &ids, true, &mut warnings).ok().unwrap();
    assert_eq!(kept.len(), 1);
    assert_eq!(kept[0].0, "dev");
    assert_eq!(warnings.len(), 1);
    let mut strict = Vec::new();
    assert!(normalize_configurations(&sources, &ids, false, &mut strict).is_err());
}

#[test]
fn default_scenario_is_named_or_first_by_name() {
    let names = vec!["staging".to_string(), "dev".to_string(), "prod".to_string()];
    assert_eq!(normalize_default_configuration(&None, &names), Ok("dev".to_string()));
    assert_eq!(normalize_default_configuration(&Some(" prod ".to_string()), &names), Ok("prod".to_string()));
    assert_eq!(
        normalize_default_configuration(&Some("qa".to_string()), &names),
        Err("Default scenario does not exist: qa".to_string())
    );
    assert_eq!(
        normalize_default_configuration(&Some("a b".to_string()), &names),
        Err("Default scenario name is invalid: a b".to_string())
    );
    assert_eq!(
        normalize_default_configuration(&None, &Vec::new()),
        Err("Workspace has no usable scenarios".to_string())
    );
    assert!(default_configuration().request_overrides.is_empty());
}

#[test]
fn workspace_names() {
    assert_eq!(workspace_name(&Some("  Shop API ".to_string()), "/p/shop/.postui"), "Shop API");
    assert_eq!(workspace_name(&None, "/p/shop/.postui"), "shop");
    assert_eq!(workspace_name(&Some(" ".to_string()), "/.postui"), "PostUI");
}

#[test]
fn error_pages_list_diagnostics() {
    let ds = vec![
        ConfigDiagnostic::invalid("/w/a.yaml", "url".to_string(), "empty".to_string()),
        ConfigDiagnostic::invalid("/w/b.yaml", "method".to_string(), "bad".to_string()),
    ];
    let page = ErrorPage::from_diagnostics(&ds).unwrap();
    assert_eq!(page.path, "/w/a.yaml");
    assert!(page.message.starts_with("Configuration errors: 2\n\nerror[CONFIG_INVALID]"));
    assert!(page.message.ends_with("detail: bad"));
    assert!(ErrorPage::from_diagnostics(&Vec::new()).is_none());

    let workspace_error = invalid("/w/postui.yaml", "workspace".to_string(), "x".to_string());
    assert_eq!(ErrorPage::from_error(&workspace_error, "/w/postui.yaml", false).path, "/w/postui.yaml");
    let file_error = invalid("/w/requests/a.yaml", "url".to_string(), "x".to_string());
    assert_eq!(ErrorPage::from_error(&file_error, "/w/postui.yaml", false).path, "/w/requests/a.yaml");
    assert_eq!(ErrorPage::from_error(&file_error, "/w/postui.yaml", true).path, "/w/postui.yaml");
    let other = ErrorPage::from_error(&LoadError::Other("boom".to_string()), "/w/postui.yaml", false);
    assert!(other.message.contains("field: configuration"));
    assert!(other.message.ends_with("detail: boom"));
}

#[test]
fn workspaces_come_together_with_defaults() {
    let sources = vec![source("requests/b.yaml", "https://b.test"), source("requests/a.yaml", "https://a.test")];
    let mut warnings = Vec::new();
    let config = load_workspace("/p/.postui/postui.yaml", None, "/p/.postui", &sources, &Vec::new(), false, &mut warnings)
        .ok()
        .unwrap();
    assert_eq!(config.name, "p");
    assert_eq!(config.file_directory, "/p/test_files");
    assert_eq!(config.download_directory, "/p/temp");
    assert_eq!(config.timeout_seconds, 30);
    assert_eq!(config.requests.len(), 2);
    assert_eq!(config.requests[0].timeout_seconds, 30);
    assert_eq!(config.configurations.len(), 1);
    assert_eq!(config.default_configuration, "default");
    assert!(warnings.is_empty());
}

#[test]
fn workspace_settings_are_checked() {
    let mut raw = RawWorkspaceConfig::new();
    raw.name = Some("Shop".to_string());
    raw.timeout = 0;
    let mut warnings = Vec::new();
    let error = normalize_workspace("/p/.postui/postui.yaml", &raw, "/p/.postui", &Vec::new(), &Vec::new(), false, &mut warnings)
        .err()
        .unwrap();
    let d = from_error(&error).unwrap();
    assert_eq!(d.field(), "timeout");
    assert_eq!(d.path(), "/p/.postui/postui.yaml");

    let mut raw = RawWorkspaceConfig::new();
    raw.default_scenario = Some("prod".to_string());
    raw.downloads = "/var/out".to_string();
    let error = normalize_workspace("/p/.postui/postui.yaml", &raw, "/p/.postui", &Vec::new(), &Vec::new(), false, &mut warnings)
        .err()
        .unwrap();
    let d = from_error(&error).unwrap();
    assert_eq!(d.field(), "default_scenario");
    assert_eq!(d.detail(), "Default scenario does not exist: prod");

    raw.default_scenario = None;
    let ok = normalize_workspace("/p/.postui/postui.yaml", &raw, "/p/.postui", &Vec::new(), &Vec::new(), false, &mut warnings)
        .ok()
        .unwrap();
    assert_eq!(ok.download_directory, "/var/out");
}

#[test]
fn tolerant_loads_fall_back_to_defaults() {
    let broken = ConfigDiagnostic::parse("/p/.postui/postui.yaml", "postui.yaml".to_string(), "bad".to_string(), Some((1, 1)));
    let mut strict = Vec::new();
    assert!(load_workspace("/p/.postui/postui.yaml", Some(Err(broken.clone())), "/p/.postui", &Vec::new(), &Vec::new(), false, &mut strict).is_err());

    let mut warnings = Vec::new();
    let config = load_workspace("/p/.postui/postui.yaml", Some(Err(broken)), "/p/.postui", &Vec::new(), &Vec::new(), true, &mut warnings)
        .ok()
        .unwrap();
    assert_eq!(config.timeout_seconds, 30);
    assert_eq!(warnings.len(), 1);

    let mut raw = RawWorkspaceConfig::new();
    raw.headers = vec![NameValue { name: "Bad Name".to_string(), value: "x".to_string() }];
    let mut warnings = Vec::new();
    let config = load_workspace("/p/.postui/postui.yaml", Some(Ok(raw)), "/p/.postui", &Vec::new(), &Vec::new(), true, &mut warnings)
        .ok()
        .unwrap();
    assert!(config.headers.is_empty());
    assert_eq!(warnings.len(), 1);
    assert_eq!(warnings[0].field(), "headers");
}

#[test]
fn workspace_and_scenario_variables_are_checked() {
    let mut raw = RawWorkspaceConfig::new();
    raw.variables = vec![
        ("{{ host }}".to_string(), Some(RawVariableDefinition::Value("a.test".to_string()))),
        ("token".to_string(), None),
    ];
    let mut warnings = Vec::new();
    let ok = normalize_workspace("/p/.postui/postui.yaml", &raw, "/p/.postui", &Vec::new(), &Vec::new(), false, &mut warnings)
        .ok()
        .unwrap();
    assert_eq!(ok.variables.len(), 2);
    assert_eq!(ok.variables[0].0, "host");
    assert_eq!(ok.variables[0].1.default.as_deref(), Some("a.test"));
    assert!(ok.variables[1].1.temporary);

    raw.variables = vec![("{{bad".to_string(), None)];
    let error = normalize_workspace("/p/.postui/postui.yaml", &raw, "/p/.postui", &Vec::new(), &Vec::new(), false, &mut warnings)
        .err()
        .unwrap();
    let d = from_error(&error).unwrap();
    assert_eq!(d.field(), "variables");
    assert_eq!(d.detail(), "Variable name is invalid: {{bad");

    let mut doc = configuration(Vec::new());
    doc.variables = vec![("a".to_string(), None), ("{{a}}".to_string(), None)];
    let error = normalize_configuration("/p/.postui/scenarios/test.yaml", "test", &doc, &Vec::new())
        .err()
        .unwrap();
    let d = from_error(&error).unwrap();
    assert_eq!(d.field(), "variables");
    assert_eq!(d.detail(), "Variable name is declared more than once: a");

    doc.variables = vec![(
        "otp".to_string(),
        Some(RawVariableDefinition::Definition { value: Some("1".to_string()), secret: true, temporary: false }),
    )];
    let c = normalize_configuration("/p/.postui/scenarios/test.yaml", "test", &doc, &Vec::new()).ok().unwrap();
    assert_eq!(c.variables.len(), 1);
    assert!(c.variables[0].1.secret && !c.variables[0].1.temporary);
}

#[test]
fn scenarios_come_ordered_by_name() {
    let names = ["a.b", "a", "Z", "a-b"];
    let sources: Vec<ConfigurationSource> = names
        .iter()
        .map(|n| ConfigurationSource {
            name: n.to_string(),
            path: format!("/w/scenarios/{n}.yaml"),
            parsed: Ok(configuration(Vec::new())),
        })
        .collect();
    let mut warnings = Vec::new();
    let kept = normalize_configurations(&sources, &Vec::new(), false, &mut warnings).ok().unwrap();
    let got: Vec<&str> = kept.iter().map(|c| c.0.as_str()).collect();
    assert_eq!(got, vec!["Z", "a", "a-b", "a.b"]);
}

#[test]
fn a_run_starts_in_the_scenario_asked_for() {
    let sources: Vec<ConfigurationSource> = ["dev", "prod"]
        .iter()
        .map(|n| ConfigurationSource {
            name: n.to_string(),
            path: format!("/p/.postui/scenarios/{n}.yaml"),
            parsed: Ok(configuration(Vec::new())),
        })
        .collect();
    let mut warnings = Vec::new();
    let config = normalize_workspace("/p/.postui/postui.yaml", &RawWorkspaceConfig::new(), "/p/.postui", &Vec::new(), &sources, false, &mut warnings)
        .ok()
        .unwrap();
    assert_eq!(choose_scenario(&config, None), Ok("dev".to_string()));
    assert_eq!(choose_scenario(&config, Some("prod")), Ok("prod".to_string()));
    assert_eq!(
        choose_scenario(&config, Some("qa")),
        Err("Scenario qa does not exist; available scenarios: dev, prod".to_string())
    );
}
