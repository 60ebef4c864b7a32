use postui::request_operations::{
    busy_message, extract_response_variables, RequestExecutionOptions, RequestOperations,
    MAX_CONCURRENT_REQUESTS,
};

#[test]
fn sends_are_numbered_per_executor() {
    let mut ops = RequestOperations::new();
    let a = ops.prepare("users/list");
    let b = ops.prepare("users/list");
    assert_eq!(a.request_id, "users/list");
    assert_eq!(a.operation_id, "users/list-1");
    assert_eq!(b.operation_id, "users/list-2");
}

#[test]
fn running_sends_are_tracked_until_cancelled() {
    let mut ops = RequestOperations::new();
    let a = ops.prepare("r");
    assert!(!ops.is_active(&a.operation_id));
    ops.started(a.operation_id.clone());
    ops.started(a.operation_id.clone());
    assert!(ops.is_active(&a.operation_id));
    assert!(ops.cancel(&a.operation_id));
    assert!(!ops.cancel(&a.operation_id));
    assert!(!ops.is_active(&a.operation_id));
}

#[test]
fn busy_limit_message() {
    assert_eq!(MAX_CONCURRENT_REQUESTS, 8);
    assert_eq!(busy_message(), "最多同时处理 8 个请求，请稍后重试");
}

#[test]
fn execution_options_hand_on_what_the_sender_reads() {
    let options = RequestExecutionOptions {
        timeout_seconds: 5,
        file_directory: "/work".to_string(),
        skip_ssl_verification: true,
        secret_values: vec!["s3cr3t".to_string()],
        max_display_bytes: 10,
        max_response_bytes: 20,
    };
    let sender = options.request_options();
    assert_eq!(sender.timeout_seconds, 5);
    assert_eq!(sender.file_directory, "/work");
    assert!(sender.skip_ssl_verification);
    assert_eq!(sender.secret_values, &["s3cr3t".to_string()]);
    assert_eq!(sender.max_response_bytes, 20);
}

#[test]
fn extracted_variables_follow_status_and_body() {
    let vars = vec!["token".to_string(), "id".to_string(), "name".to_string()];
    let values = vec![Some("abc".to_string()), None, Some("n".to_string())];
    let (found, failed) = extract_response_variables(200, &vars, Some(values.clone()));
    assert_eq!(
        found,
        vec![("token".to_string(), "abc".to_string()), ("name".to_string(), "n".to_string())]
    );
    assert_eq!(failed, 1);
    assert_eq!(extract_response_variables(404, &vars, Some(values)), (Vec::new(), 0));
    assert_eq!(extract_response_variables(200, &vars, None), (Vec::new(), 3));
    assert_eq!(extract_response_variables(200, &[], None), (Vec::new(), 0));
}
