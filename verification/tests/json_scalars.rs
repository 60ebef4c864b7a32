use postui::json_scalars::{convert_json_scalar, json_scalar_ranges, JsonScalarKind};

#[test]
fn scalar_values_are_found_but_not_keys() {
    let document = "{\"a\": \"x\", \"n\": -1.5e3, \"t\": [true, false, null], \"s\": \"q\\\"r\u{e9}\", \"k\" :1}";
    assert_eq!(
        json_scalar_ranges(document),
        vec![(6, 9), (16, 22), (30, 34), (36, 41), (43, 47), (55, 63), (70, 71)]
    );
    assert_eq!(json_scalar_ranges(""), Vec::<(usize, usize)>::new());
    assert_eq!(json_scalar_ranges("\"open"), vec![(0, 5)]);
}

#[test]
fn typed_values_become_json_of_their_kind() {
    assert_eq!(convert_json_scalar(JsonScalarKind::String, "a\"b"), Some("\"a\\\"b\"".to_string()));
    assert_eq!(convert_json_scalar(JsonScalarKind::Number, "1.50"), Some("1.5".to_string()));
    assert_eq!(convert_json_scalar(JsonScalarKind::Number, "abc"), None);
    assert_eq!(convert_json_scalar(JsonScalarKind::Boolean, "true"), Some("true".to_string()));
    assert_eq!(convert_json_scalar(JsonScalarKind::Boolean, "True"), None);
    assert_eq!(convert_json_scalar(JsonScalarKind::Null, "null"), Some("null".to_string()));
    assert_eq!(convert_json_scalar(JsonScalarKind::Null, ""), None);
}
