use postui::config::{ApiRequest, FileUpload, NameValue, RequestParam, WorkspaceConfiguration};
use postui::content::{content_value_fields, ContentEditor, ContentField, ContentFieldSource, ContentTarget, PreviewContentState};
use postui::curl_import::CurlImportFocus;
use postui::curl_import_page::{CurlImportPage, FieldEdit, ImportEvent, ImportPoll, ImportStatus};
use postui::dialog::{header_preset, move_index, DialogAction, DialogCommand, KeyValueField, PreviewTab};
use postui::editor::{EditCommand, EditInput};
use postui::extracts::{ExtractRow, ExtractsCommand, ExtractsPage, ExtractsPageAction};
use postui::preview::{headers_dialog, sync_header_dialog};
use postui::request_body_formatter::{reformat_with, reformatted_request, replace_body};
use postui::request_list::{moved_request, request_search_query, visible_request_indices, wrap_index};
use postui::session::{HeaderSource, RequestDraft};
use postui::tabs::{supports_method, ResponseMenuAction, ResponseTab};

fn request(id: &str, name: &str, method: &str, url: &str) -> ApiRequest {
    ApiRequest {
        id: id.to_string(),
        name: name.to_string(),
        method: method.to_string(),
        url: url.to_string(),
        timeout_seconds: 30,
        skip_ssl_verification: false,
        description: String::new(),
        headers: vec![NameValue { name: "Accept".to_string(), value: "*/*".to_string() }],
        body_parts: Vec::new(),
        query_parts: Vec::new(),
        form: Vec::new(),
        files: Vec::new(),
        extracts: Vec::new(),
    }
}

fn no_scenario() -> WorkspaceConfiguration {
    WorkspaceConfiguration {
        path: None,
        variables: Vec::new(),
        headers: Vec::new(),
        timeout_seconds: None,
        skip_ssl_verification: None,
        request_overrides: Vec::new(),
    }
}

fn rows(names: &[&str]) -> Vec<ExtractRow> {
    names
        .iter()
        .map(|n| ExtractRow { variable: n.to_string(), path: format!("$.{n}") })
        .collect()
}

#[test]
fn indices_move_within_lists() {
    assert_eq!(move_index(0, -1, 3), 0);
    assert_eq!(move_index(1, 1, 3), 2);
    assert_eq!(move_index(2, 1, 3), 2);
    assert_eq!(move_index(4, 1, 0), 0);
    assert_eq!(wrap_index(0, -1, 3), 2);
    assert_eq!(wrap_index(2, 1, 3), 0);
    assert_eq!(wrap_index(1, -7, 3), 0);
    assert_eq!(header_preset(1), Some(("Accept", "application/json")));
    assert_eq!(header_preset(6), None);
}

#[test]
fn headers_dialog_edits_and_adds() {
    let draft = RequestDraft::from_request(&request("requests/a.yaml", "A", "GET", "https://a.test"));
    let workspace = vec![NameValue { name: "X-Team".to_string(), value: "core".to_string() }];
    let mut dialog = headers_dialog("requests/a.yaml".to_string(), &draft, &workspace, &no_scenario());
    assert_eq!(dialog.rows.len(), 2);
    assert_eq!(dialog.rows[0].source, HeaderSource::Collection);
    assert_eq!(dialog.rows[1].name, "Accept");
    assert_eq!(dialog.table.field, KeyValueField::Value);

    assert_eq!(dialog.handle_key(None, Some(DialogCommand::Down), None, None), DialogAction::Idle);
    assert_eq!(dialog.table.selected, 1);
    dialog.handle_key(None, Some(DialogCommand::Activate), None, None);
    assert!(dialog.table.editor.is_some());
    for c in "text/plain".chars() {
        dialog.handle_key(None, None, None, Some(c));
    }
    assert_eq!(dialog.handle_key(None, None, Some(EditCommand::Confirm), None), DialogAction::Changed);
    assert_eq!(dialog.rows[1].value, "text/plain");
    assert!(dialog.table.editor.is_none());

    dialog.handle_key(None, Some(DialogCommand::Add), None, None);
    assert_eq!(dialog.preset_selection, Some(0));
    dialog.handle_key(Some(DialogCommand::Down), None, None, None);
    assert_eq!(dialog.handle_key(Some(DialogCommand::Activate), None, None, None), DialogAction::Changed);
    assert_eq!(dialog.table.selected, 1);
    assert!(dialog.preset_selection.is_none());

    dialog.handle_key(None, None, Some(EditCommand::Back), None);
    assert_eq!(
        dialog.handle_key(None, Some(DialogCommand::Delete), None, None),
        DialogAction::RemoveRow { tab: PreviewTab::Headers, index: 1 }
    );
    assert!(dialog.remove_row(1).is_some());
    assert_eq!(dialog.rows.len(), 1);
    assert_eq!(dialog.handle_key(None, Some(DialogCommand::Back), None, None), DialogAction::Cancel);
}

#[test]
fn dialog_rows_flow_back_into_the_draft() {
    let mut draft = RequestDraft::from_request(&request("requests/a.yaml", "A", "GET", "https://a.test"));
    let mut dialog = headers_dialog("requests/a.yaml".to_string(), &draft, &Vec::new(), &no_scenario());
    dialog.add_row();
    assert!(!sync_header_dialog(&mut draft.headers, &dialog.rows));
    dialog.rows[0].value = "text/html".to_string();
    assert!(sync_header_dialog(&mut draft.headers, &dialog.rows));
    assert_eq!(draft.headers.len(), 1);
    assert_eq!(draft.headers[0].value, "text/html");
    assert!(!sync_header_dialog(&mut draft.headers, &dialog.rows));
}

#[test]
fn request_search_filters_by_lowercase_text() {
    let requests = vec![
        request("requests/users.yaml", "List Users", "GET", "https://a.test/users"),
        request("requests/login.yaml", "Login", "POST", "https://a.test/session"),
        request("requests/ÄRGER.yaml", "Other", "PUT", "https://b.test"),
    ];
    assert_eq!(visible_request_indices(&requests, Some("  USERS ")), vec![0]);
    assert_eq!(visible_request_indices(&requests, Some("post")), vec![1]);
    assert_eq!(visible_request_indices(&requests, Some("ärger")), vec![2]);
    assert_eq!(visible_request_indices(&requests, Some("a.test")), vec![0, 1]);
    assert_eq!(visible_request_indices(&requests, None), vec![0, 1, 2]);
    assert_eq!(request_search_query(Some("typed"), "saved"), Some("typed"));
    assert_eq!(request_search_query(None, "saved"), Some("saved"));
    assert_eq!(request_search_query(None, ""), None);
    assert_eq!(moved_request(&vec![0, 2, 5], Some(2), 1), Some(5));
    assert_eq!(moved_request(&vec![0, 2, 5], Some(5), 1), Some(0));
    assert_eq!(moved_request(&vec![0, 2, 5], Some(4), -1), Some(5));
    assert_eq!(moved_request(&Vec::new(), Some(1), 1), None);
}

#[test]
fn extracts_page_reorders_rows() {
    let mut page = ExtractsPage::new(rows(&["a", "b", "c"]));
    assert_eq!(page.handle_key(Some(ExtractsCommand::ReorderUp)), None);
    assert_eq!(page.handle_key(Some(ExtractsCommand::ReorderDown)), Some(ExtractsPageAction::Reordered));
    assert_eq!(page.order(), vec!["b".to_string(), "a".to_string(), "c".to_string()]);
    assert_eq!(page.selected, 1);
    assert_eq!(page.handle_key(Some(ExtractsCommand::ReorderUp)), Some(ExtractsPageAction::Reordered));
    assert_eq!(page.order(), vec!["a".to_string(), "b".to_string(), "c".to_string()]);
    assert_eq!(page.handle_key(Some(ExtractsCommand::Up)), None);
    assert_eq!(page.selected, 2);
    page.select(7);
    assert_eq!(page.selected, 2);
    page.select(1);
    assert_eq!(page.selected, 1);
    assert_eq!(page.handle_key(Some(ExtractsCommand::Back)), Some(ExtractsPageAction::Close));
    let mut empty = ExtractsPage::new(Vec::new());
    empty.move_selection(1);
    assert_eq!(empty.selected, 0);
}

#[test]
fn tabs_cycle_and_menus_index() {
    assert_eq!(ResponseTab::Raw.next(), ResponseTab::Formatted);
    assert_eq!(ResponseTab::Raw.previous(), ResponseTab::Headers);
    assert_eq!(ResponseTab::Headers.toggle_format(), ResponseTab::Formatted);
    assert_eq!(ResponseTab::Formatted.toggle_format(), ResponseTab::Raw);
    assert_eq!(PreviewTab::Headers.next(), PreviewTab::Body);
    assert_eq!(PreviewTab::Body.previous(), PreviewTab::Headers);
    assert_eq!(PreviewTab::all(), vec![PreviewTab::Body, PreviewTab::Params, PreviewTab::Headers]);
    assert_eq!(ResponseMenuAction::from_index(2), Some(ResponseMenuAction::CopyHeaders));
    assert_eq!(ResponseMenuAction::from_index(3), None);
    assert_eq!(ResponseMenuAction::all().len(), 3);
    assert!(supports_method(" post "));
    assert!(supports_method("Get"));
    assert!(!supports_method("PUT"));
}

#[test]
fn content_fields_sit_below_their_headings() {
    let mut r = request("requests/a.yaml", "A", "POST", "https://a.test");
    r.form = vec![
        RequestParam::new("user".to_string(), "a".to_string(), true),
        RequestParam::new("名字".to_string(), "b".to_string(), true),
    ];
    r.files = vec![FileUpload { field: "doc".to_string(), path: "a.txt".to_string(), filename: None, content_type: None }];
    let fields = content_value_fields(&r);
    assert_eq!(
        fields,
        vec![
            ContentField { line: 1, column: 6, source: ContentFieldSource::Form(0) },
            ContentField { line: 2, column: 6, source: ContentFieldSource::Form(1) },
            ContentField { line: 5, column: 5, source: ContentFieldSource::File(0) },
        ]
    );
    r.form.clear();
    assert_eq!(content_value_fields(&r), vec![ContentField { line: 1, column: 5, source: ContentFieldSource::File(0) }]);
}

#[test]
fn content_editor_splices_the_body() {
    let mut input = EditInput::new("42".to_string());
    input.handle_command(Some(EditCommand::End), None);
    let editor = ContentEditor {
        target: ContentTarget::Body { document: "{\"a\": 1}".to_string(), start: 6, end: 7 },
        line: 0,
        column: 6,
        input,
    };
    assert_eq!(editor.display_document(), Some("{\"a\": 42}".to_string()));
    assert_eq!(editor.display_width(), 3);
    assert!(editor.covers(0, 8));
    assert!(!editor.covers(0, 9));
    assert!(!editor.covers(1, 6));
    let mut state = PreviewContentState::new();
    state.field_cursor = 3;
    state.editor = Some(editor);
    assert!(state.is_editing());
    state.reset_content();
    assert_eq!(state.field_cursor, 0);
    state.cancel_editor();
    assert!(!state.is_editing());
}

#[test]
fn curl_import_page_checks_fields_and_follows_progress() {
    let mut page = CurlImportPage::new();
    page.edit_active_field(FieldEdit::Insert("  ".to_string()));
    assert_eq!(page.import_fields(), None);
    assert_eq!(page.focus, CurlImportFocus::Name);
    page.edit_active_field(FieldEdit::Clear);
    page.edit_active_field(FieldEdit::Insert(" Users ".to_string()));
    page.edit_active_field(FieldEdit::Backspace);
    page.edit_active_field(FieldEdit::MoveLeft);
    page.edit_active_field(FieldEdit::Delete);
    assert_eq!(page.field_value(CurlImportFocus::Name), " User");
    assert_eq!(page.cursor(CurlImportFocus::Name), 5);
    assert_eq!(page.import_fields(), None);
    assert_eq!(page.focus, CurlImportFocus::Command);
    page.edit_active_field(FieldEdit::Insert("curl https://a.test".to_string()));
    let (name, description, command) = page.import_fields().unwrap();
    assert_eq!((name.as_str(), description.as_str(), command.as_str()), ("User", "", "curl https://a.test"));
    assert!(page.focused(CurlImportFocus::Command));

    page.start_import();
    assert!(page.is_running());
    assert!(matches!(page.status(), Some(ImportStatus::Parsing)));
    assert_eq!(page.import_fields(), None);
    assert_eq!(page.poll_import(ImportEvent::Empty, "stopped"), ImportPoll::Pending);
    assert_eq!(page.poll_import(ImportEvent::Parsed, "stopped"), ImportPoll::Changed);
    assert!(matches!(page.status(), Some(ImportStatus::Saving)));
    assert_eq!(page.poll_import(ImportEvent::Finished(Err("disk full".to_string())), "stopped"), ImportPoll::Changed);
    assert!(matches!(page.status(), Some(ImportStatus::Failed("disk full"))));
    page.mark_editing();
    assert!(page.status().is_none());
    page.start_import();
    assert_eq!(page.poll_import(ImportEvent::Disconnected, "stopped"), ImportPoll::Changed);
    assert!(matches!(page.status(), Some(ImportStatus::Failed("stopped"))));
    page.start_import();
    assert_eq!(page.poll_import(ImportEvent::Finished(Ok(())), "stopped"), ImportPoll::Complete);
    page.place_cursor(CurlImportFocus::Command, 0, 4);
    assert_eq!(page.cursor(CurlImportFocus::Command), 4);
    assert_eq!(page.field_value(CurlImportFocus::Workspace), "");
}

#[test]
fn json_bodies_are_rewritten_as_literal_blocks() {
    let file = "name: A\nbody: '{\"a\":1}'\nmethod: POST\n";
    assert_eq!(
        replace_body(file, "{\n  \"a\": 1\n}"),
        Some("name: A\nbody: |-\n  {\n    \"a\": 1\n  }\nmethod: POST\n".to_string())
    );
    let crlf = "body: >\r\n  x\r\n\r\n  y\r\nurl: u\r\n";
    assert_eq!(replace_body(crlf, "z"), Some("body: |-\r\n  z\r\nurl: u\r\n".to_string()));
    assert_eq!(replace_body("name: A\nbodyless: 1\n", "x"), None);
    assert_eq!(replace_body("body:", "x"), Some("body: |-\n  x\n".to_string()));
    assert_eq!(reformat_with(file, None, Some("x")), None);
    assert_eq!(reformat_with(file, Some("x"), Some("x")), None);
    assert_eq!(reformat_with(file, Some("x"), None), None);
    assert_eq!(
        reformatted_request(file, Some("{\"a\":1}")),
        Some("name: A\nbody: |-\n  {\n    \"a\": 1\n  }\nmethod: POST\n".to_string())
    );
    assert_eq!(reformatted_request(file, Some("not json")), None);
    assert_eq!(reformatted_request(file, Some("{\n  \"a\": 1\n}")), None);
    assert_eq!(reformatted_request(file, None), None);
}
