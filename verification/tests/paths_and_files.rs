use postui::files::{
    has_parent_part, is_yaml_file, join_path_str, normalize_configuration_name, normalize_path,
    normalize_request_id, parent_path, path_file_name, request_id_for, resolve_directory,
};
use postui::request_file::{
    candidate_file_name, request_file_stem, temporary_file_name, RequestFileStore,
};
use postui::text::{decimal_string, split_str, to_lower_str, trim_str};

#[test]
fn text_helpers_follow_std() {
    assert_eq!(trim_str("  a b \t\n"), "a b");
    assert_eq!(split_str("a//b", '/'), vec!["a".to_string(), String::new(), "b".to_string()]);
    assert_eq!(decimal_string(0), "0");
    assert_eq!(decimal_string(1907), "1907");
    assert_eq!(to_lower_str("GeT-Ä"), "get-Ä");
}

#[test]
fn paths_resolve_dots_in_their_text() {
    assert_eq!(normalize_path("a/./b/../c"), "a/c");
    assert_eq!(normalize_path("/../x//y/"), "/x/y");
    assert_eq!(normalize_path("../a/.."), "..");
    assert_eq!(normalize_path("./"), ".");
    assert_eq!(normalize_path("/"), "/");
}

#[test]
fn parent_and_file_names() {
    assert_eq!(parent_path("/work/.postui"), Some("/work".to_string()));
    assert_eq!(parent_path("project"), Some(String::new()));
    assert_eq!(parent_path("/"), None);
    assert_eq!(path_file_name("dir/health.yaml"), Some("health.yaml".to_string()));
    assert_eq!(path_file_name("dir/.."), None);
}

#[test]
fn yaml_files_are_told_by_extension() {
    assert!(is_yaml_file("requests/a.yaml"));
    assert!(is_yaml_file("requests/b.YML"));
    assert!(!is_yaml_file("requests/.yaml"));
    assert!(!is_yaml_file("requests/c.json"));
    assert!(!is_yaml_file("requests/yaml"));
}

#[test]
fn joining_and_resolving_directories() {
    assert_eq!(join_path_str("/w", "requests"), "/w/requests");
    assert_eq!(join_path_str("/w/", "r"), "/w/r");
    assert_eq!(join_path_str("/w", "/abs"), "/abs");
    assert_eq!(resolve_directory("/home/me/project/.postui", "downloads"), "/home/me/project/downloads");
    assert_eq!(resolve_directory("/p/.postui", "../out/./x"), "/out/x");
    assert_eq!(resolve_directory("/p/.postui", "/tmp/up"), "/tmp/up");
}

#[test]
fn request_ids_are_paths_below_the_workspace() {
    assert_eq!(request_id_for("/w/.postui/requests/a.yaml", "/w/.postui"), "requests/a.yaml");
    assert_eq!(request_id_for("/elsewhere/a.yaml", "/w/.postui"), "/elsewhere/a.yaml");
    assert_eq!(request_id_for("C:\\x\\a.yaml", "/w"), "C:/x/a.yaml");
}

#[test]
fn override_ids_stay_below_requests() {
    assert_eq!(normalize_request_id(" users/list.yaml "), Ok("requests/users/list.yaml".to_string()));
    assert_eq!(normalize_request_id("a\\b.yaml"), Ok("requests/a/b.yaml".to_string()));
    assert_eq!(
        normalize_request_id("../secret.yaml"),
        Err("Request override path is invalid: ../secret.yaml".to_string())
    );
    assert_eq!(normalize_request_id("/abs.yaml"), Err("Request override path is invalid: /abs.yaml".to_string()));
    assert_eq!(normalize_request_id("  "), Err("Request override path is invalid: ".to_string()));
    assert!(has_parent_part("a/../b"));
    assert!(!has_parent_part("a/..b"));
}

#[test]
fn scenario_names_are_plain_words() {
    assert_eq!(normalize_configuration_name(" test-1.local_2 "), Some("test-1.local_2".to_string()));
    assert_eq!(normalize_configuration_name("two words"), None);
    assert_eq!(normalize_configuration_name("   "), None);
}

#[test]
fn new_request_files_get_clean_names() {
    assert_eq!(request_file_stem("  List users!  "), "List-users");
    assert_eq!(request_file_stem("**a  b--"), "a-b");
    assert_eq!(request_file_stem("获取 用户"), "获取-用户");
    assert_eq!(request_file_stem("!!!"), "request");
    assert_eq!(candidate_file_name("health", 1), "health.yaml");
    assert_eq!(candidate_file_name("health", 3), "health-3.yaml");
    assert_eq!(temporary_file_name("a.yaml", 42, 7), ".a.yaml.42.7.tmp");
}

#[test]
fn request_paths_come_from_ids() {
    let store = RequestFileStore::new("/w/.postui".to_string());
    assert_eq!(store.workspace_path(), "/w/.postui");
    assert_eq!(store.requests_directory(), "/w/.postui/requests");
    assert_eq!(store.path_for_id("requests/a/b.yaml"), Ok("/w/.postui/requests/a/b.yaml".to_string()));
    assert_eq!(store.path_for_id("other/a.yaml"), Err("Request has no writable source file".to_string()));
    assert_eq!(store.path_for_id("requests/"), Err("Request has no writable source file".to_string()));
    assert_eq!(store.path_for_id("requests/../x.yaml"), Err("Invalid request source path".to_string()));
}
