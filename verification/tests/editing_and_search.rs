use postui::config::{ApiRequest, DataPart, FileUpload, RequestParam};
use postui::dialog::{DataPartSource, ParamSource, ParamsDialogRow};
use postui::external_editing::{
    apply_edited_headers, body_editor_choice, body_editor_contents, clamped_selection,
    edited_body_parts, editor_file_name, param_row, param_rows, temporary_header, temporary_param,
    validate_temporary_header, BodyEditorChoice, TemporaryHeader, TemporaryHeaderSource,
    TemporaryParam, TemporaryParamEncoding, TemporaryParamSource,
};
use postui::response_search::{search_start, PlainDocument};
use postui::session::{HeaderRow, HeaderSource, RequestDraft};
use postui::workspace_actions::{
    reload_action, reload_stopped_page, reloaded_configuration, reselected_request, switch_action,
    ReloadAction, SwitchAction,
};

fn row(name: &str, value: &str, source: HeaderSource) -> HeaderRow {
    HeaderRow { name: name.to_string(), value: value.to_string(), enabled: true, source }
}

fn edited(name: &str, value: &str, source: TemporaryHeaderSource) -> TemporaryHeader {
    TemporaryHeader { name: name.to_string(), value: value.to_string(), enabled: true, source }
}

fn names(rows: &[HeaderRow]) -> Vec<(String, String, bool, HeaderSource)> {
    rows.iter().map(|r| (r.name.clone(), r.value.clone(), r.enabled, r.source)).collect()
}

fn draft_with(body_parts: Vec<DataPart>, form: usize, files: usize) -> RequestDraft {
    let mut request = ApiRequest {
        id: "requests/a.yaml".to_string(),
        name: "A".to_string(),
        method: "POST".to_string(),
        url: "https://a.test".to_string(),
        timeout_seconds: 30,
        skip_ssl_verification: false,
        description: String::new(),
        headers: Vec::new(),
        body_parts,
        query_parts: Vec::new(),
        form: Vec::new(),
        files: Vec::new(),
        extracts: Vec::new(),
    };
    for i in 0..form {
        request.form.push(RequestParam::new(format!("f{i}"), "v".to_string(), true));
    }
    for i in 0..files {
        request.files.push(FileUpload { field: format!("u{i}"), path: "a.txt".to_string(), filename: None, content_type: None });
    }
    RequestDraft::from_request(&request)
}

#[test]
fn header_documents_mark_inherited_rows() {
    let t = temporary_header(&row("X-Team", "core", HeaderSource::Collection));
    assert_eq!(t.source, TemporaryHeaderSource::Inherited);
    assert_eq!(temporary_header(&row("A", "1", HeaderSource::Suppressed)).source, TemporaryHeaderSource::Request);
    assert_eq!(
        validate_temporary_header(&edited("Bad Name", "v", TemporaryHeaderSource::Request)),
        Err("Invalid Header name: Bad Name: invalid HTTP header name".to_string())
    );
    assert_eq!(
        validate_temporary_header(&edited("  ", "v", TemporaryHeaderSource::Request)),
        Err("Header name cannot be empty".to_string())
    );
    assert_eq!(
        validate_temporary_header(&edited("X", "a\u{7}", TemporaryHeaderSource::Request)),
        Err("Invalid Header value: X: failed to parse header value".to_string())
    );
}

#[test]
fn edited_headers_flow_into_draft_and_dialog() {
    let current = vec![row("X-Team", "core", HeaderSource::Collection), row("Accept", "*/*", HeaderSource::Request)];
    let edits = vec![
        edited("X-Team", "core", TemporaryHeaderSource::Inherited),
        edited(" Accept ", "text/html", TemporaryHeaderSource::Request),
        edited("X-New", "1", TemporaryHeaderSource::Request),
    ];
    let (draft, dialog) = apply_edited_headers(&current, &edits).unwrap();
    assert_eq!(
        names(&draft),
        vec![
            ("Accept".to_string(), "text/html".to_string(), true, HeaderSource::Request),
            ("X-New".to_string(), "1".to_string(), true, HeaderSource::Request),
        ]
    );
    assert_eq!(dialog.len(), 3);
    assert_eq!(dialog[0].source, HeaderSource::Collection);
}

#[test]
fn dropped_inherited_headers_are_suppressed() {
    let current = vec![row("X-Team", "core", HeaderSource::Collection), row("Accept", "*/*", HeaderSource::Request)];
    let (draft, dialog) = apply_edited_headers(&current, &vec![edited("Accept", "*/*", TemporaryHeaderSource::Request)]).unwrap();
    assert_eq!(
        names(&draft),
        vec![
            ("Accept".to_string(), "*/*".to_string(), true, HeaderSource::Request),
            ("X-Team".to_string(), "core".to_string(), false, HeaderSource::Suppressed),
        ]
    );
    assert_eq!(names(&dialog), vec![("Accept".to_string(), "*/*".to_string(), true, HeaderSource::Request)]);

    let (draft, _) = apply_edited_headers(&current, &vec![edited("x-team", "other", TemporaryHeaderSource::Inherited)]).unwrap();
    assert_eq!(names(&draft), vec![("x-team".to_string(), "other".to_string(), true, HeaderSource::Request)]);

    assert_eq!(
        apply_edited_headers(&current, &vec![edited("ok", "1", TemporaryHeaderSource::Request), edited("", "2", TemporaryHeaderSource::Request)]).err(),
        Some("Header name cannot be empty".to_string())
    );
}

#[test]
fn parameter_documents_round_trip() {
    let dialog_row = ParamsDialogRow {
        source: ParamSource::Body,
        key: "a".to_string(),
        value: "1".to_string(),
        part_type: Some(DataPartSource::UrlEncoded),
        has_equals: true,
    };
    let t = temporary_param(&dialog_row);
    assert_eq!(t.source, TemporaryParamSource::Body);
    assert_eq!(t.encoding, Some(TemporaryParamEncoding::UrlEncoded));
    let back = param_row(&t).unwrap();
    assert_eq!(back.source, ParamSource::Body);
    assert_eq!(back.part_type, Some(DataPartSource::UrlEncoded));
    assert_eq!(back.key, "a");

    let bad = TemporaryParam {
        source: TemporaryParamSource::Url,
        name: "q".to_string(),
        value: String::new(),
        has_equals: false,
        encoding: Some(TemporaryParamEncoding::Raw),
    };
    assert_eq!(param_rows(&vec![t, bad]).err(), Some("url and form parameters do not accept encoding".to_string()));
}

#[test]
fn body_editor_opens_on_what_the_body_is() {
    assert_eq!(body_editor_choice(&draft_with(Vec::new(), 1, 0)), BodyEditorChoice::Params);
    assert_eq!(body_editor_choice(&draft_with(vec![DataPart::Raw("{}".to_string())], 0, 0)), BodyEditorChoice::Text);
    assert_eq!(body_editor_choice(&draft_with(Vec::new(), 0, 0)), BodyEditorChoice::Text);
    assert_eq!(body_editor_choice(&draft_with(vec![DataPart::Raw("x".to_string())], 0, 1)), BodyEditorChoice::Unavailable);
    let encoded = DataPart::UrlEncoded(RequestParam::new("a".to_string(), "1".to_string(), true));
    assert_eq!(body_editor_choice(&draft_with(vec![encoded], 0, 0)), BodyEditorChoice::Params);
    let mixed = vec![
        DataPart::Raw("x".to_string()),
        DataPart::UrlEncoded(RequestParam::new("a".to_string(), "1".to_string(), true)),
    ];
    assert_eq!(body_editor_choice(&draft_with(mixed, 0, 0)), BodyEditorChoice::Unavailable);
}

#[test]
fn edited_bodies_are_checked_and_pretty_printed() {
    assert_eq!(body_editor_contents("{\"a\":1}"), ("{\n  \"a\": 1\n}".to_string(), true));
    assert_eq!(body_editor_contents("x=1"), ("x=1".to_string(), false));
    match edited_body_parts("[1,2]", true).unwrap().as_slice() {
        [DataPart::Raw(text)] => assert_eq!(text, "[\n  1,\n  2\n]"),
        _ => panic!("expected one raw part"),
    }
    assert!(edited_body_parts("", false).unwrap().is_empty());
    assert_eq!(edited_body_parts("oops", true).err(), Some("Invalid JSON request body".to_string()));
    assert_eq!(editor_file_name(12, 3, "json"), "postui-editor-12-3.json");
    assert_eq!(clamped_selection(5, 3), 2);
    assert_eq!(clamped_selection(1, 3), 1);
    assert_eq!(clamped_selection(4, 0), 0);
}

#[test]
fn plain_documents_show_a_prefix_and_search_round() {
    let doc = PlainDocument::new(b"alpha\nBeta\ngamma beta\n".to_vec(), 100);
    assert_eq!(doc.displayed_bytes(), 22);
    assert_eq!(doc.total_bytes(), 22);
    assert!(!doc.limited());
    assert_eq!(doc.line_count(), 3);
    assert_eq!(doc.find_line("BETA", 0, false), Some(1));
    assert_eq!(doc.find_line("BETA", 2, false), Some(2));
    assert_eq!(doc.find_line("BETA", 3, false), Some(1));
    assert_eq!(doc.find_line("beta", 0, true), Some(2));
    assert_eq!(doc.find_line("beta", 1, true), Some(1));
    assert_eq!(doc.find_line("zzz", 1, false), None);

    let limited = PlainDocument::new(b"abcdef".to_vec(), 3);
    assert_eq!(limited.displayed_bytes(), 3);
    assert!(limited.limited());
    assert_eq!(limited.find_line("d", 0, false), None);
    assert_eq!(PlainDocument::new(b"abc".to_vec(), 0).displayed_bytes(), 1);

    assert_eq!(search_start(None, false), 0);
    assert_eq!(search_start(None, true), usize::MAX);
    assert_eq!(search_start(Some(4), false), 5);
    assert_eq!(search_start(Some(4), true), 3);
    assert_eq!(search_start(Some(0), true), usize::MAX);
}

#[test]
fn reloads_and_switches_wait_for_requests() {
    assert_eq!(reload_action(true, true), ReloadAction::Ignore);
    assert_eq!(reload_action(false, true), ReloadAction::BusySending);
    assert_eq!(reload_action(false, false), ReloadAction::Start);
    assert_eq!(switch_action(false, true, true), SwitchAction::Close);
    assert_eq!(switch_action(false, false, true), SwitchAction::BusySending);
    assert_eq!(switch_action(false, false, false), SwitchAction::Switch);
    let names = vec!["dev".to_string(), "prod".to_string()];
    assert_eq!(reloaded_configuration(&names, "prod", "dev"), "prod");
    assert_eq!(reloaded_configuration(&names, "gone", "dev"), "dev");
    let ids = vec!["requests/a.yaml".to_string(), "requests/b.yaml".to_string()];
    assert_eq!(reselected_request(&ids, Some("requests/b.yaml"), Some(0)), Some(1));
    assert_eq!(reselected_request(&ids, Some("requests/x.yaml"), Some(0)), Some(0));
    assert_eq!(reselected_request(&ids, None, None), None);
    let page = reload_stopped_page("/w/.postui");
    assert_eq!(page.path, "/w/.postui/postui.yaml");
    assert!(page.message.ends_with("detail: Workspace reload ended unexpectedly"));
}

#[test]
fn an_unchanged_header_document_changes_nothing() {
    let current = vec![
        row("X-Team", "core", HeaderSource::Collection),
        row("Accept", "*/*", HeaderSource::Request),
        HeaderRow { name: "X-Off".to_string(), value: "0".to_string(), enabled: false, source: HeaderSource::Request },
    ];
    let document: Vec<TemporaryHeader> = current.iter().map(temporary_header).collect();
    let (draft, dialog) = apply_edited_headers(&current, &document).unwrap();
    assert_eq!(names(&dialog), names(&current));
    assert_eq!(names(&draft), names(&current[1..]));
}

#[test]
fn an_unchanged_parameter_document_changes_nothing() {
    let rows = vec![
        ParamsDialogRow { source: ParamSource::Url, key: "page".to_string(), value: "1".to_string(), part_type: None, has_equals: true },
        ParamsDialogRow { source: ParamSource::Query, key: "q".to_string(), value: String::new(), part_type: Some(DataPartSource::Raw), has_equals: false },
        ParamsDialogRow { source: ParamSource::Form, key: "f".to_string(), value: "x".to_string(), part_type: None, has_equals: true },
    ];
    let document: Vec<TemporaryParam> = rows.iter().map(temporary_param).collect();
    let back = param_rows(&document).ok().unwrap();
    assert_eq!(back.len(), rows.len());
    for (a, b) in rows.iter().zip(back.iter()) {
        assert_eq!(a.source, b.source);
        assert_eq!(a.key, b.key);
        assert_eq!(a.value, b.value);
        assert_eq!(a.part_type, b.part_type);
        assert_eq!(a.has_equals, b.has_equals);
    }
}
