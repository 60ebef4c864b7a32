use postui::config::{DataPart, NameValue, RequestParam};
use postui::curl::{parse, split_option, tokenize, url_start, ImportedRequest};

fn import(command: &str) -> ImportedRequest {
    match parse(command) {
        Ok(request) => request,
        Err(error) => panic!("{}", error.message()),
    }
}

fn failure(command: &str) -> String {
    match parse(command) {
        Ok(request) => panic!("imported {}", request.url),
        Err(error) => error.message().to_string(),
    }
}

fn raw(part: &DataPart) -> &str {
    match part {
        DataPart::Raw(value) => value.as_str(),
        DataPart::UrlEncoded(_) => panic!("expected a raw part"),
    }
}

fn header<'a>(headers: &'a [NameValue], name: &str) -> Option<&'a str> {
    headers.iter().find(|h| h.name == name).map(|h| h.value.as_str())
}

#[test]
fn plain_get_splits_the_query() {
    let request = import("curl 'https://example.test/users?page=2&size=10#top' -H 'Accept: application/json'");
    assert_eq!(request.method, "GET");
    assert_eq!(request.url, "https://example.test/users#top");
    let query: Vec<&str> = request.query_parts.iter().map(raw).collect();
    assert_eq!(query, vec!["page=2", "size=10"]);
    assert_eq!(header(&request.headers, "Accept"), Some("application/json"));
    assert!(request.body_parts.is_empty());
    assert!(!request.skip_ssl_verification);
}

#[test]
fn form_data_posts_and_splits() {
    let request = import("curl -X post example.test/login -d 'user=a&pass=b' -k");
    assert_eq!(request.method, "POST");
    assert_eq!(request.url, "http://example.test/login");
    let body: Vec<&str> = request.body_parts.iter().map(raw).collect();
    assert_eq!(body, vec!["user=a", "pass=b"]);
    assert!(request.skip_ssl_verification);
}

#[test]
fn json_option_sets_headers_and_keeps_body() {
    let request = import("curl --json '{\"a\": 1}' https://e.test/api");
    assert_eq!(request.method, "POST");
    assert_eq!(header(&request.headers, "Content-Type"), Some("application/json"));
    assert_eq!(header(&request.headers, "Accept"), Some("application/json"));
    let body: Vec<&str> = request.body_parts.iter().map(raw).collect();
    assert_eq!(body, vec!["{\"a\": 1}"]);
}

#[test]
fn credentials_become_basic_authorization() {
    let request = import("curl -u user:pass https://e.test");
    assert_eq!(header(&request.headers, "Authorization"), Some("Basic dXNlcjpwYXNz"));
}

#[test]
fn cookies_are_joined() {
    let request = import("curl -b a=1 --cookie b=2 https://e.test");
    assert_eq!(header(&request.headers, "Cookie"), Some("a=1; b=2"));
}

#[test]
fn forms_hold_fields_and_files() {
    let request = import("curl -F 'file=@/tmp/a.txt;type=text/plain;filename=b.txt' -F name=x --form-string 'raw=@keep' https://e.test/up");
    assert_eq!(request.method, "POST");
    assert_eq!(request.files.len(), 1);
    assert_eq!(request.files[0].field, "file");
    assert_eq!(request.files[0].path, "/tmp/a.txt");
    assert_eq!(request.files[0].content_type.as_deref(), Some("text/plain"));
    assert_eq!(request.files[0].filename.as_deref(), Some("b.txt"));
    assert_eq!(request.form.len(), 2);
    assert_eq!(request.form[0].name, "name");
    assert_eq!(request.form[0].value, "x");
    assert_eq!(request.form[1].name, "raw");
    assert_eq!(request.form[1].value, "@keep");
}

#[test]
fn get_option_moves_data_to_the_query() {
    let request = import("curl -G https://e.test/s?q=1 -d a=2 --data-urlencode 'b=x y'");
    assert_eq!(request.method, "GET");
    assert_eq!(request.query_parts.len(), 3);
    assert_eq!(raw(&request.query_parts[0]), "q=1");
    assert_eq!(raw(&request.query_parts[1]), "a=2");
    match &request.query_parts[2] {
        DataPart::UrlEncoded(RequestParam { name, value, has_equals }) => {
            assert_eq!(name, "b");
            assert_eq!(value, "x y");
            assert!(*has_equals);
        }
        DataPart::Raw(_) => panic!("expected an encoded part"),
    }
    assert!(request.body_parts.is_empty());
}

#[test]
fn prompts_and_continuations_are_accepted() {
    let request = import("$ curl https://e.test/a \\\n  -H 'X-One: 1' \\\r\n  -A agent");
    assert_eq!(request.url, "https://e.test/a");
    assert_eq!(header(&request.headers, "X-One"), Some("1"));
    assert_eq!(header(&request.headers, "User-Agent"), Some("agent"));
    assert_eq!(request.max_time, None);
    assert_eq!(import("curl -m 2.5 https://e.test").max_time.as_deref(), Some("2.5"));
}

#[test]
fn bad_commands_are_refused() {
    assert_eq!(failure("wget https://e.test"), "命令必须以 curl 开头");
    assert_eq!(failure("curl"), "cURL 命令中没有请求地址");
    assert_eq!(failure("curl 'https://e.test"), "cURL 命令存在未闭合的引号");
    assert_eq!(failure("curl ftp://e.test"), "请求地址必须使用 http 或 https");
    assert_eq!(failure("curl -Z https://e.test"), "不支持的 cURL 参数: -Z");
    assert_eq!(failure("curl -X 'BAD METHOD' https://e.test"), "HTTP 方法无效: BAD METHOD");
    assert_eq!(failure("curl https://a.test https://b.test"), "一条 cURL 命令只能包含一个请求地址");
    assert_eq!(failure("curl https://e.test -H"), "-H 缺少参数值");
    assert_eq!(failure("curl https://e.test -F novalue"), "表单字段格式无效: novalue");
}

#[test]
fn tokens_and_options() {
    let tokens = tokenize("curl -H\"A: b\" 'x y'").unwrap_or_else(|e| panic!("{}", e.message()));
    assert_eq!(tokens, vec!["curl".to_string(), "-HA: b".to_string(), "x y".to_string()]);
    assert_eq!(split_option("--data=1=2"), ("--data".to_string(), Some("1=2".to_string())));
    assert_eq!(split_option("-XPOST"), ("-X".to_string(), Some("POST".to_string())));
    assert_eq!(split_option("-k"), ("-k".to_string(), None));
    assert!(url_start("192.168.0.1:8080/x"));
    assert!(url_start("{{base}}/x"));
    assert!(!url_start("example.test/x"));
}
