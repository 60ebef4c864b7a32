use postui::config::{FileUpload, NameValue, RequestParam, ResponseExtract};
use postui::documents::{RequestDocument, RequestOverrideDocument};
use postui::files::ParsedRequest;
use postui::http_method;
use postui::validation::{
    normalize_extracts, normalize_files, normalize_header, normalize_headers, normalize_method,
    normalize_override, normalize_params, normalize_request, normalize_variable_name,
    request_display_name, validate_timeout,
};

fn header(name: &str, value: &str) -> NameValue {
    NameValue { name: name.to_string(), value: value.to_string() }
}

fn param(name: &str, value: &str) -> RequestParam {
    RequestParam::new(name.to_string(), value.to_string(), true)
}

fn extract(variable: &str, path: &str) -> ResponseExtract {
    ResponseExtract { variable: variable.to_string(), path: path.to_string() }
}

fn document(url: &str) -> RequestDocument {
    RequestDocument {
        name: String::new(),
        description: String::new(),
        method: "get".to_string(),
        url: url.to_string(),
        timeout: None,
        skip_ssl_verification: None,
        headers: Vec::new(),
        params: Vec::new(),
        body: None,
        form: Vec::new(),
        files: Vec::new(),
        extracts: Vec::new(),
    }
}

fn empty_override() -> RequestOverrideDocument {
    RequestOverrideDocument {
        method: None,
        url: None,
        timeout: None,
        skip_ssl_verification: None,
        headers: None,
        params: None,
        body: None,
        form: None,
        files: None,
        extracts: None,
    }
}

#[test]
fn methods_are_tokens_in_upper_case() {
    assert_eq!(http_method::parse(" patch "), Some("PATCH".to_string()));
    assert_eq!(http_method::parse("GET /"), None);
    assert_eq!(http_method::parse(""), None);
    assert_eq!(normalize_method("delete", "requests/a.yaml"), Ok("DELETE".to_string()));
    assert_eq!(
        normalize_method("bad method", "requests/a.yaml"),
        Err("Request requests/a.yaml has an invalid method: bad method".to_string())
    );
}

#[test]
fn variable_names_may_be_wrapped() {
    assert_eq!(normalize_variable_name(" {{ token }} "), Some("token".to_string()));
    assert_eq!(normalize_variable_name("token"), Some("token".to_string()));
    assert_eq!(normalize_variable_name("{{token"), None);
    assert_eq!(normalize_variable_name("{{}}"), None);
    assert_eq!(normalize_variable_name("a{b"), None);
}

#[test]
fn timeouts_must_be_positive() {
    assert_eq!(validate_timeout(30), Ok(30));
    assert_eq!(
        validate_timeout(0),
        Err("timeout must be a positive integer in seconds; omit it to use the default".to_string())
    );
}

#[test]
fn headers_are_checked_by_the_http_rules() {
    let h = normalize_header(&header(" X-Trace ", "  abc  ")).unwrap();
    assert_eq!(h.name, "X-Trace");
    assert_eq!(h.value, "abc");
    assert_eq!(normalize_header(&header("  ", "v")).err(), Some("Header name cannot be empty".to_string()));
    assert_eq!(
        normalize_header(&header("Bad Name", "v")).err(),
        Some("Invalid Header name (Bad Name): invalid HTTP header name".to_string())
    );
    assert_eq!(
        normalize_header(&header("X", "a\nb")).err(),
        Some("Invalid Header value (X): failed to parse header value".to_string())
    );
    assert_eq!(normalize_header(&header("X", "café")).unwrap().value, "café");
    let all = normalize_headers(&vec![header("A", "1"), header("", "2"), header("B C", "3")]);
    assert_eq!(all.err(), Some("Header name cannot be empty".to_string()));
}

#[test]
fn parameters_need_names() {
    let ok = normalize_params(&vec![param(" q ", "1")], "requests/a.yaml", "params").unwrap();
    assert_eq!(ok[0].name, "q");
    assert_eq!(
        normalize_params(&vec![param(" ", "1")], "requests/a.yaml", "form").err(),
        Some("Request requests/a.yaml form parameter name cannot be empty".to_string())
    );
}

#[test]
fn uploads_need_a_field_and_a_safe_path() {
    let upload = |field: &str, path: &str| FileUpload {
        field: field.to_string(),
        path: path.to_string(),
        filename: None,
        content_type: None,
    };
    assert!(normalize_files(&vec![upload("f", "a.txt")], "r").is_ok());
    assert_eq!(
        normalize_files(&vec![upload(" ", "a.txt")], "r").err(),
        Some("Request r upload file is missing field".to_string())
    );
    assert_eq!(
        normalize_files(&vec![upload("f", "  ")], "r").err(),
        Some("Request r upload file is missing path".to_string())
    );
    assert_eq!(
        normalize_files(&vec![upload("f", "../x")], "r").err(),
        Some("Request r upload file path cannot contain ..".to_string())
    );
    assert!(normalize_files(&vec![upload("f", "/abs/../x")], "r").is_ok());
}

#[test]
fn extractions_are_normalized_and_unique() {
    let ok = normalize_extracts(&vec![extract("{{ id }}", " $.data.id ")], "r").unwrap();
    assert_eq!(ok[0].variable, "id");
    assert_eq!(ok[0].path, "$.data.id");
    assert_eq!(
        normalize_extracts(&vec![extract("id", "$.a"), extract(" id ", "$.b")], "r").err(),
        Some("Request r declares response extraction variable more than once: id".to_string())
    );
    assert_eq!(
        normalize_extracts(&vec![extract("id", "  ")], "r").err(),
        Some("Request r response extraction is missing path".to_string())
    );
    assert_eq!(
        normalize_extracts(&vec![extract("{{", "$")], "r").err(),
        Some("Request r has an invalid response extraction variable: {{".to_string())
    );
}

#[test]
fn display_names_come_from_file_stems() {
    assert_eq!(request_display_name("requests/01-list-users.yaml"), "list-users");
    assert_eq!(request_display_name("requests/health.yaml"), "health");
    assert_eq!(request_display_name("requests/2024.yaml"), "2024");
    assert_eq!(request_display_name("requests/a.b.yaml"), "a.b");
}

#[test]
fn requests_are_normalized_from_their_documents() {
    let mut doc = document(" https://example.test/health ");
    doc.params = vec![param("page", "1")];
    doc.body = Some("{}".to_string());
    doc.headers = vec![header("Accept", " */* ")];
    let raw = ParsedRequest { id: "requests/01-health.yaml".to_string(), document: doc };
    let request = normalize_request(&raw, 15, true).unwrap();
    assert_eq!(request.id, "requests/01-health.yaml");
    assert_eq!(request.name, "health");
    assert_eq!(request.method, "GET");
    assert_eq!(request.url, "https://example.test/health");
    assert_eq!(request.timeout_seconds, 15);
    assert!(request.skip_ssl_verification);
    assert_eq!(request.headers[0].value, "*/*");
    assert_eq!(request.query_parts.len(), 1);
    assert_eq!(request.body_parts.len(), 1);

    let mut no_timeout = document("https://e.test");
    no_timeout.timeout = Some(0);
    let raw = ParsedRequest { id: "requests/x.yaml".to_string(), document: no_timeout };
    assert!(normalize_request(&raw, 15, false).is_err());

    let raw = ParsedRequest { id: "requests/x.yaml".to_string(), document: document("  ") };
    assert_eq!(
        normalize_request(&raw, 15, false).err(),
        Some("Request requests/x.yaml is missing url".to_string())
    );
}

#[test]
fn overrides_must_set_something() {
    assert_eq!(
        normalize_override(&empty_override(), "requests/a.yaml", "test").err(),
        Some("Scenario test request requests/a.yaml override cannot be empty".to_string())
    );
    let mut blank_url = empty_override();
    blank_url.url = Some("   ".to_string());
    assert_eq!(
        normalize_override(&blank_url, "requests/a.yaml", "test").err(),
        Some("Scenario test request requests/a.yaml override url cannot be empty".to_string())
    );
    let mut method = empty_override();
    method.method = Some("put".to_string());
    let normalized = normalize_override(&method, "requests/a.yaml", "test").unwrap();
    assert_eq!(normalized.method.as_deref(), Some("PUT"));
    assert!(normalized.url.is_none());
}
