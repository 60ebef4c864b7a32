use postui::config::{ApiRequest, DataPart, NameValue, RequestOverride, RequestParam, WorkspaceConfiguration};
use postui::i18n::{Language, UiText};
use postui::loading::default_configuration;
use postui::runtime::{
    accepts_result, failure_feedback, response_feedback, send_decision, send_notice, Feedback,
    RequestRuntimeState, SendAction,
};
use postui::session::{
    commit_draft, effective_request, find_override, headers_match, HeaderRow, HeaderSource,
    RequestDraft, RequestStatus,
};

fn header(name: &str, value: &str) -> NameValue {
    NameValue { name: name.to_string(), value: value.to_string() }
}

fn request() -> ApiRequest {
    ApiRequest {
        id: "requests/a.yaml".to_string(),
        name: "A".to_string(),
        method: "GET".to_string(),
        url: "https://a.test".to_string(),
        timeout_seconds: 30,
        skip_ssl_verification: false,
        description: String::new(),
        headers: vec![header("Accept", "*/*")],
        body_parts: Vec::new(),
        query_parts: vec![DataPart::UrlEncoded(RequestParam::new("q".to_string(), "1".to_string(), true))],
        form: Vec::new(),
        files: Vec::new(),
        extracts: Vec::new(),
    }
}

fn scenario() -> WorkspaceConfiguration {
    WorkspaceConfiguration {
        path: Some("/w/scenarios/test.yaml".to_string()),
        variables: Vec::new(),
        headers: vec![header("X-Env", "test")],
        timeout_seconds: Some(10),
        skip_ssl_verification: None,
        request_overrides: Vec::new(),
    }
}

fn text() -> UiText {
    UiText::new(Language::English)
}

fn message(feedback: &Feedback) -> String {
    feedback.message().to_string()
}

#[test]
fn a_fresh_draft_matches_its_request() {
    let source = request();
    let draft = RequestDraft::from_request(&source);
    assert_eq!(draft.method, "GET");
    assert_eq!(draft.url.as_deref(), Some("https://a.test"));
    assert!(headers_match(&draft.headers, &source.headers));
    assert!(draft.matches_configuration(&source, &default_configuration()));
}

#[test]
fn only_enabled_named_rows_are_sent() {
    let mut draft = RequestDraft::from_request(&request());
    draft.headers.push(HeaderRow { name: " X-Off ".to_string(), value: "1".to_string(), enabled: false, source: HeaderSource::Request });
    draft.headers.push(HeaderRow { name: "  ".to_string(), value: "2".to_string(), enabled: true, source: HeaderSource::Request });
    draft.headers.push(HeaderRow { name: " X-On ".to_string(), value: "3".to_string(), enabled: true, source: HeaderSource::Request });
    let sent = draft.enabled_headers();
    let names: Vec<&str> = sent.iter().map(|h| h.name.as_str()).collect();
    assert_eq!(names, vec!["Accept", "X-On"]);
}

#[test]
fn inherited_headers_leave_out_what_the_draft_names() {
    let draft = RequestDraft::from_request(&request());
    let workspace = vec![header("accept", "text/html"), header("X-Env", "dev"), header("X-Team", "core")];
    let inherited = draft.inherited_headers(&workspace, &scenario());
    let names: Vec<(&str, &str)> = inherited.iter().map(|h| (h.name.as_str(), h.value.as_str())).collect();
    assert_eq!(names, vec![("X-Team", "core"), ("X-Env", "test")]);
}

#[test]
fn effective_requests_use_the_draft() {
    let source = request();
    let mut draft = RequestDraft::from_request(&source);
    draft.method = "POST".to_string();
    draft.url = Some("https://b.test".to_string());
    let effective = effective_request(&source, &draft, &scenario(), &vec![header("X-Team", "core")]);
    assert_eq!(effective.method, "POST");
    assert_eq!(effective.url, "https://b.test");
    let names: Vec<&str> = effective.headers.iter().map(|h| h.name.as_str()).collect();
    assert_eq!(names, vec!["X-Team", "X-Env", "Accept"]);
}

#[test]
fn committing_to_the_workspace_changes_the_request() {
    let mut source = request();
    let mut configuration = default_configuration();
    let mut draft = RequestDraft::from_request(&source);
    draft.url = Some("https://c.test".to_string());
    draft.timeout_seconds = 5;
    commit_draft(&mut source, &draft, &mut configuration);
    assert_eq!(source.url, "https://c.test");
    assert_eq!(source.timeout_seconds, 5);
    assert!(configuration.request_overrides.is_empty());
}

#[test]
fn committing_to_a_scenario_records_an_override() {
    let mut source = request();
    let mut configuration = scenario();
    let mut draft = RequestDraft::from_request(&source);
    draft.url = Some("https://c.test".to_string());
    commit_draft(&mut source, &draft, &mut configuration);
    assert_eq!(source.url, "https://a.test");
    assert_eq!(configuration.request_overrides.len(), 1);
    let (id, o): &(String, RequestOverride) = &configuration.request_overrides[0];
    assert_eq!(id, "requests/a.yaml");
    assert_eq!(o.url.as_deref(), Some("https://c.test"));
    assert_eq!(o.timeout_seconds, Some(30));
    assert!(o.method.is_none());
    assert_eq!(find_override(&configuration.request_overrides, "requests/a.yaml"), Some(0));

    let unchanged = RequestDraft::from_request(&source);
    let mut again = unchanged;
    again.timeout_seconds = 10;
    commit_draft(&mut source, &again, &mut configuration);
    assert!(configuration.request_overrides.is_empty());
}

#[test]
fn statuses_and_labels() {
    assert_eq!(RequestStatus::from_http_status(204), RequestStatus::Success);
    assert_eq!(RequestStatus::from_http_status(404), RequestStatus::Failed);
    assert_eq!(RequestStatus::from_error(true), RequestStatus::Timeout);
    assert_eq!(RequestStatus::Sending.label(text()), "Sending");
    assert_eq!(RequestStatus::NotSent.label(UiText::new(Language::Chinese)), "未发送");
}

#[test]
fn runtime_state_follows_a_request() {
    let mut state: RequestRuntimeState<String> = RequestRuntimeState::new();
    assert_eq!(state.status(), RequestStatus::NotSent);
    state.start("op-1".to_string());
    assert_eq!(state.status(), RequestStatus::Sending);
    assert_eq!(state.active_operation_id(), Some("op-1"));
    assert!(accepts_result(state.active_operation_id(), "op-1"));
    assert!(!accepts_result(state.active_operation_id(), "op-0"));
    state.receive_response(503, "body".to_string(), response_feedback(503, text()));
    assert_eq!(state.status(), RequestStatus::Failed);
    assert_eq!(state.response().map(|r| r.as_str()), Some("body"));
    assert_eq!(state.feedback().map(message), Some("Failed".to_string()));
    assert!(!accepts_result(state.active_operation_id(), "op-1"));
    state.complete_failure(RequestStatus::Timeout, "took too long".to_string(), failure_feedback(RequestStatus::Timeout, text()));
    assert_eq!(state.status(), RequestStatus::Timeout);
    assert_eq!(state.error(), Some("took too long"));
    assert_eq!(state.feedback().map(message), Some("Timeout".to_string()));
    state.reset();
    assert_eq!(state.status(), RequestStatus::NotSent);
    assert!(state.feedback().is_none());
}

#[test]
fn sending_decides_in_order() {
    assert!(matches!(send_decision(true, false, RequestStatus::Sending, None), SendAction::Ignore));
    assert!(matches!(send_decision(false, false, RequestStatus::NotSent, None), SendAction::SelectionRequired));
    assert!(matches!(send_decision(false, true, RequestStatus::Sending, None), SendAction::Cancel));
    assert!(matches!(send_decision(false, true, RequestStatus::NotSent, None), SendAction::UrlRequired));
    assert!(matches!(send_decision(false, true, RequestStatus::NotSent, Some((" ", "GET"))), SendAction::UrlRequired));
    match send_decision(false, true, RequestStatus::Failed, Some(("https://a.test", "BAD METHOD"))) {
        SendAction::InvalidMethod(m) => assert_eq!(m, "BAD METHOD"),
        _ => panic!("expected an invalid method"),
    }
    let invalid = send_decision(false, true, RequestStatus::Failed, Some(("https://a.test", "BAD METHOD")));
    assert_eq!(send_notice(&invalid, text()).map(|f| message(&f)), Some("Invalid HTTP method: BAD METHOD".to_string()));
    assert!(matches!(send_decision(false, true, RequestStatus::Success, Some(("https://a.test", "get"))), SendAction::Send));
    assert!(send_notice(&SendAction::Send, text()).is_none());
    assert_eq!(send_notice(&SendAction::UrlRequired, text()).map(|f| message(&f)), Some("URL required".to_string()));
    assert_eq!(response_feedback(200, text()).message(), "Success");
}

#[test]
fn committed_overrides_stay_ordered_by_request_id() {
    let mut first = request();
    first.id = "requests/b.yaml".to_string();
    let mut second = request();
    second.id = "requests/a.yaml".to_string();
    let mut configuration = scenario();
    for source in [&mut first, &mut second] {
        let mut draft = RequestDraft::from_request(source);
        draft.url = Some("https://c.test".to_string());
        commit_draft(source, &draft, &mut configuration);
    }
    let ids: Vec<&str> = configuration.request_overrides.iter().map(|e| e.0.as_str()).collect();
    assert_eq!(ids, vec!["requests/a.yaml", "requests/b.yaml"]);
}
