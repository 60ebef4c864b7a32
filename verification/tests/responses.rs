use postui::request_file::{create_step, CreateStep, LinkOutcome};
use postui::response::{
    binary_body, chunk_fits, declared_length_fits, effective_timeout, is_loopback_url,
    upload_file_name, upload_path_problem, ClientKind, HttpError, ResponseData, USER_AGENT,
};

fn sample(headers: Vec<(String, String)>, body: Vec<u8>) -> ResponseData {
    ResponseData::new("http://example.test/".to_string(), 200, "OK".to_string(), headers, body, 12)
}

#[test]
fn loopback_hosts_skip_the_proxy() {
    assert!(is_loopback_url("http://localhost:8080/a"));
    assert!(is_loopback_url("https://127.0.0.1/"));
    assert!(!is_loopback_url("https://example.com/"));
    assert!(!is_loopback_url("not a url"));
    // The URL parser writes an IPv6 host with its brackets, so it is not matched.
    assert!(!is_loopback_url("http://[::1]:3000/"));
}

#[test]
fn client_choice_follows_loopback_and_ssl() {
    assert_eq!(ClientKind::for_request(false, false), ClientKind::Regular);
    assert_eq!(ClientKind::for_request(true, false), ClientKind::NoProxy);
    assert_eq!(ClientKind::for_request(false, true), ClientKind::Insecure);
    assert_eq!(ClientKind::for_request(true, true), ClientKind::InsecureNoProxy);
    assert_eq!(ClientKind::InsecureNoProxy.label(), "insecure_no_proxy");
    assert!(ClientKind::NoProxy.no_proxy());
    assert!(!ClientKind::Insecure.no_proxy());
    assert!(ClientKind::Insecure.skips_ssl_verification());
    assert_eq!(USER_AGENT, "postui/0.1");
}

#[test]
fn timeout_is_at_least_one_second() {
    assert_eq!(effective_timeout(0), 1);
    assert_eq!(effective_timeout(1), 1);
    assert_eq!(effective_timeout(30), 30);
}

#[test]
fn upload_names_fall_back_to_the_path() {
    assert_eq!(upload_file_name(Some("data.csv"), "files/x.bin"), "data.csv");
    assert_eq!(upload_file_name(Some("  "), "files/x.bin"), "x.bin");
    assert_eq!(upload_file_name(None, "files/x.bin"), "x.bin");
    assert_eq!(upload_file_name(None, "/"), "upload.bin");
}

#[test]
fn upload_paths_are_checked_before_lookup() {
    assert_eq!(upload_path_problem("   "), Some("文件路径不能为空".to_string()));
    assert_eq!(
        upload_path_problem("a/../b"),
        Some("上传文件相对路径不能包含 ..".to_string())
    );
    assert_eq!(upload_path_problem("/a/../b"), None);
    assert_eq!(upload_path_problem(" files/a.txt "), None);
}

#[test]
fn response_size_limit() {
    assert!(declared_length_fits(None, 10));
    assert!(declared_length_fits(Some(10), 10));
    assert!(!declared_length_fits(Some(11), 10));
    assert!(chunk_fits(4, 6, 10));
    assert!(!chunk_fits(4, 7, 10));
    assert!(chunk_fits(12, 0, 10));
    assert!(!chunk_fits(12, 1, 10));
}

#[test]
fn binary_bodies_are_not_utf8_or_hold_zero() {
    assert!(!binary_body(b"plain text"));
    assert!(binary_body(&[0x66, 0x00, 0x67]));
    assert!(binary_body(&[0xff, 0xfe]));
    assert!(!binary_body("中文".as_bytes()));
    assert!(sample(Vec::new(), vec![0xc3]).is_binary());
    assert!(!sample(Vec::new(), b"{}".to_vec()).is_binary());
}

#[test]
fn content_type_is_the_first_match_in_any_case() {
    let response = sample(
        vec![
            ("X-Id".to_string(), "7".to_string()),
            ("Content-Type".to_string(), "application/json".to_string()),
            ("content-type".to_string(), "text/plain".to_string()),
        ],
        Vec::new(),
    );
    assert_eq!(response.content_type(), Some("application/json"));
    assert_eq!(sample(Vec::new(), Vec::new()).content_type(), None);
    assert_eq!(
        response.headers_text(),
        "X-Id: 7\nContent-Type: application/json\ncontent-type: text/plain"
    );
    assert_eq!(sample(Vec::new(), Vec::new()).headers_text(), "");
}

#[test]
fn http_errors_have_their_messages() {
    assert!(HttpError::from_transport(true, true, true, "x".to_string()).is_timeout());
    assert!(matches!(
        HttpError::from_transport(false, true, true, "x".to_string()),
        HttpError::Connection
    ));
    assert!(matches!(
        HttpError::from_transport(false, false, true, "bad".to_string()),
        HttpError::InvalidRequest(m) if m == "bad"
    ));
    assert!(matches!(
        HttpError::from_transport(false, false, false, "x".to_string()),
        HttpError::Transport
    ));
    assert_eq!(
        HttpError::ResponseTooLarge(1024).message(),
        "Response exceeds max_response_bytes (1024 bytes)"
    );
    assert_eq!(HttpError::Timeout.message(), "HTTP request timed out");
    assert_eq!(HttpError::Upload("u".to_string()).message(), "u");
    assert_eq!(HttpError::ClientInitialization.message(), "HTTP client initialization failed");
}

#[test]
fn creating_a_request_file_tries_the_next_name() {
    assert!(matches!(create_step(1, "a.yaml", LinkOutcome::Linked), CreateStep::Done));
    assert!(matches!(create_step(1, "a.yaml", LinkOutcome::AlreadyExists), CreateStep::TryNext(2)));
    assert!(matches!(
        create_step(u32::MAX, "a.yaml", LinkOutcome::AlreadyExists),
        CreateStep::Fail(m) if m == "Could not choose a unique request file name"
    ));
    assert!(matches!(
        create_step(3, "r/a.yaml", LinkOutcome::Failed("denied".to_string())),
        CreateStep::Fail(m) if m == "Could not save request file: r/a.yaml: denied"
    ));
}
