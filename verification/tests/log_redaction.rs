use postui::log_redaction::{
    is_sensitive_name, log_body, log_body_bytes, log_field_value, log_form_body, log_text,
    log_url, redact_json_value, redact_secret_values, replace_str, JsonValue, MAX_LOG_VALUE_BYTES,
};

#[test]
fn sensitive_names() {
    assert!(is_sensitive_name("Authorization"));
    assert!(is_sensitive_name("Set-Cookie"));
    assert!(is_sensitive_name("X-Access-Token"));
    assert!(is_sensitive_name("client_secret"));
    assert!(is_sensitive_name("PASSWORD"));
    assert!(is_sensitive_name("X-API-Key"));
    assert!(is_sensitive_name("api key"));
    assert!(!is_sensitive_name("Content-Type"));
    assert!(!is_sensitive_name("api.key"));
}

#[test]
fn field_values_are_hidden_or_cut() {
    assert_eq!(log_field_value("Authorization", "Bearer x"), "<已隐藏>");
    assert_eq!(log_field_value("Accept", "text/plain"), "text/plain");
}

#[test]
fn long_values_are_cut_at_a_character() {
    let short = "a".repeat(MAX_LOG_VALUE_BYTES);
    assert_eq!(log_text(&short), short);
    let long = "a".repeat(70000);
    assert_eq!(
        log_text(&long),
        format!("{}…<日志字段已截断，原始长度 70000 字节>", "a".repeat(MAX_LOG_VALUE_BYTES))
    );
    let wide = "中".repeat(22000);
    assert_eq!(
        log_text(&wide),
        format!("{}…<日志字段已截断，原始长度 66000 字节>", "中".repeat(21846))
    );
}

#[test]
fn replace_follows_std() {
    for (s, p, r) in [("abc", "", "x"), ("aaa", "aa", "b"), ("a-b-c", "-", "+"), ("", "", "x"), ("abc", "zz", "y")] {
        assert_eq!(replace_str(s, p, r), s.replace(p, r));
    }
}

#[test]
fn known_secrets_are_replaced() {
    let secrets = vec!["s3cr3t".to_string(), "hunter2".to_string()];
    assert_eq!(
        redact_secret_values("user=admin&pw=hunter2&key=s3cr3t", &secrets),
        "user=admin&pw=<已隐藏>&key=<已隐藏>"
    );
    assert_eq!(redact_secret_values("nothing here", &[]), "nothing here");
}

#[test]
fn form_bodies_hide_sensitive_fields() {
    assert_eq!(log_form_body("a=1&token=x"), Some("a=1&token=<已隐藏>".to_string()));
    assert_eq!(log_form_body("a&b=2"), Some("a&b=2".to_string()));
    assert_eq!(log_form_body("=x&a=1"), None);
    assert_eq!(log_form_body("plain text"), None);
}

#[test]
fn urls_hide_sensitive_parameters() {
    assert_eq!(
        log_url("https://h.test/p?api_key=1&x=2&flag"),
        "https://h.test/p?api_key=<已隐藏>&x=2&flag"
    );
    assert_eq!(log_url("https://h.test/p"), "https://h.test/p");
}

#[test]
fn bodies_are_left_out_shown_as_json_form_or_text() {
    let long = "x".repeat(MAX_LOG_VALUE_BYTES + 1);
    assert_eq!(log_body(&long, None), "<日志字段已省略，原始长度 65537 字节>");
    assert_eq!(log_body("{\"a\":1}", Some("{\"a\":1}")), "{\"a\":1}");
    assert_eq!(log_body("password=1", None), "password=<已隐藏>");
    assert_eq!(log_body("password=1", Some("{}")), "password=<已隐藏>");
    assert_eq!(log_body("hello", None), "hello");
    assert_eq!(log_body_bytes(b"secret=9", None), "secret=<已隐藏>");
    assert_eq!(
        log_body_bytes(&vec![b'a'; MAX_LOG_VALUE_BYTES + 2], None),
        "<日志字段已省略，原始长度 65538 字节>"
    );
}

#[test]
fn json_redaction_reaches_every_depth() {
    let v = JsonValue::Object(vec![
        ("user".to_string(), JsonValue::Text("ann".to_string())),
        ("Password".to_string(), JsonValue::Number("1234".to_string())),
        (
            "items".to_string(),
            JsonValue::Array(vec![JsonValue::Object(vec![(
                "refresh_token".to_string(),
                JsonValue::Text("t".to_string()),
            )])]),
        ),
        ("ok".to_string(), JsonValue::Bool(true)),
        ("none".to_string(), JsonValue::Null),
    ]);
    let r = redact_json_value(&v);
    let JsonValue::Object(fields) = r else { panic!("object expected") };
    assert_eq!(fields.len(), 5);
    assert!(matches!(&fields[0], (n, JsonValue::Text(t)) if n == "user" && t == "ann"));
    assert!(matches!(&fields[1], (n, JsonValue::Text(t)) if n == "Password" && t == "<已隐藏>"));
    let (_, JsonValue::Array(items)) = &fields[2] else { panic!("array expected") };
    let JsonValue::Object(inner) = &items[0] else { panic!("object expected") };
    assert!(matches!(&inner[0], (_, JsonValue::Text(t)) if t == "<已隐藏>"));
    assert!(matches!(&fields[3], (_, JsonValue::Bool(true))));
    assert!(matches!(&fields[4], (_, JsonValue::Null)));
}
