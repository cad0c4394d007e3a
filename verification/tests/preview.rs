use migrate_preview::json::{JsonNumber, JsonValue};
use migrate_preview::models::{PreviewError, PreviewQuery, PreviewResponse, ProjectConfig};
use migrate_preview::preview::{
    bearer_header, http_failure, mgmt_api_url, parse_snapshot, preview_entry, preview_requests,
};
use migrate_preview::render::format_value;

fn entry(category: &str, source: &str, dest: &str) -> Result<Option<ProjectConfig>, PreviewError> {
    preview_entry(category.to_string(), source, dest)
}

#[test]
fn preview_handler_test_object_diff() {
    let result = entry("test", r#"{"a": 1, "b": 2}"#, r#"{"a": 1, "b": 3, "c": 4}"#).unwrap();
    let config = result.unwrap();

    assert_eq!(config.diffs.len(), 2); // b changed, c added
    assert!(config
        .diffs
        .iter()
        .any(|d| d.key == "b" && d.dest_value == "3"));
    assert!(config
        .diffs
        .iter()
        .any(|d| d.key == "c" && d.source_value == "null"));
}

#[test]
fn preview_handler_test_edge_functions_diff() {
    let source = r#"[
            {"id": "func1", "version": 1},
            {"id": "func2", "version": 1}
        ]"#;
    let dest = r#"[]"#;

    let result = entry("test", source, dest).unwrap();
    let config = result.unwrap();

    assert!(!config.diffs.iter().any(|d| d.key == "length"));
    assert!(config.diffs.iter().any(|d| d.key == "id:func1"));
    assert!(config.diffs.iter().any(|d| d.key == "id:func2"));
}

#[test]
fn preview_handler_test_no_diff() {
    let source = r#"{"a": 1, "b": "test", "c": true}"#;
    let dest = r#"{"a": 1, "b": "test", "c": true}"#;

    let result = entry("test", source, dest).unwrap();
    assert!(result.is_none());
}

#[test]
fn preview_handler_test_nested_object_diff() {
    let source = r#"{
            "user": {
                "name": "John",
                "age": 30,
                "address": {
                    "street": "123 Main St",
                    "city": "Boston"
                }
            }
        }"#;
    let dest = r#"{
            "user": {
                "name": "John",
                "age": 31,
                "address": {
                    "street": "123 Main St",
                    "city": "New York",
                    "zip": "10001"
                }
            }
        }"#;

    let result = entry("test", source, dest).unwrap();
    let config = result.unwrap();

    assert_eq!(config.diffs.len(), 3);
    assert!(config
        .diffs
        .iter()
        .any(|d| d.key == "user.age" && d.dest_value == "31"));
    assert!(config
        .diffs
        .iter()
        .any(|d| d.key == "user.address.city" && d.dest_value == "New York"));
    assert!(config
        .diffs
        .iter()
        .any(|d| d.key == "user.address.zip" && d.source_value == "null"));
}

#[test]
fn preview_handler_test_array_of_primitives() {
    let source = r#"[1, 2, 3, 4]"#;
    let dest = r#"[1, 2, 5]"#;

    let result = entry("test", source, dest).unwrap();
    let config = result.unwrap();

    // No length diff
    assert!(!config.diffs.iter().any(|d| d.key == "length"));
    assert!(config
        .diffs
        .iter()
        .any(|d| d.key == "[2]" && d.source_value == "3" && d.dest_value == "5"));
    assert!(config
        .diffs
        .iter()
        .any(|d| d.key == "[3]" && d.source_value == "4" && d.dest_value == "null"));
}

#[test]
fn preview_handler_test_secrets_with_supabase_filter() {
    let source = r#"[
            {"name": "MY_SECRET", "updated_at": "2025-01-01T00:00:00Z", "value": "secret1"},
            {"name": "SUPABASE_URL", "updated_at": "2025-01-01T00:00:00Z", "value": "old_url"},
            {"name": "ANOTHER_SECRET", "updated_at": "2025-01-01T00:00:00Z", "value": "secret2"}
        ]"#;
    let dest = r#"[
            {"name": "MY_SECRET", "updated_at": "2025-01-02T00:00:00Z", "value": "secret1_new"},
            {"name": "SUPABASE_URL", "updated_at": "2025-01-02T00:00:00Z", "value": "new_url"},
            {"name": "SUPABASE_ANON_KEY", "updated_at": "2025-01-02T00:00:00Z", "value": "anon_key"}
        ]"#;

    let result = entry("Secrets", source, dest).unwrap();
    let config = result.unwrap();

    // After filtering SUPABASE_ secrets:
    // Source has: MY_SECRET, ANOTHER_SECRET
    // Dest has: MY_SECRET
    // So we should see:
    // - [0] changed (MY_SECRET value changed)
    // - [1] removed (ANOTHER_SECRET)
    assert_eq!(config.diffs.len(), 2);
    assert!(config.diffs.iter().any(|d| d.key == "[0]")); // MY_SECRET changed
    assert!(config
        .diffs
        .iter()
        .any(|d| d.key == "[1]" && d.source_value.contains("ANOTHER_SECRET"))); // ANOTHER_SECRET removed

    // Should not have any SUPABASE_ related diffs
    for diff in &config.diffs {
        assert!(!diff.source_value.contains("SUPABASE_"));
        assert!(!diff.dest_value.contains("SUPABASE_"));
    }
}

#[test]
fn preview_handler_test_array_object_diff_whole_object() {
    let source = r#"[
            {"name": "item1", "value": 100, "active": true}
        ]"#;
    let dest = r#"[
            {"name": "item1", "value": 200, "active": true}
        ]"#;

    let result = entry("test", source, dest).unwrap();
    let config = result.unwrap();

    // Should report the whole object as changed
    assert_eq!(config.diffs.len(), 1);
    assert!(config.diffs.iter().any(|d| d.key == "[0]"));
    assert!(config.diffs[0].source_value.contains("\"value\":100"));
    assert!(config.diffs[0].dest_value.contains("\"value\":200"));
}

#[test]
fn a_snapshot_that_is_no_json_is_a_json_error() {
    assert!(matches!(entry("Auth", "{", "{}"), Err(PreviewError::JsonError(_))));
    assert!(matches!(entry("Auth", "{}", "[1,"), Err(PreviewError::JsonError(_))));
    assert!(matches!(entry("Auth", "", ""), Err(PreviewError::JsonError(_))));
    assert!(matches!(parse_snapshot("{} x"), Err(PreviewError::JsonError(_))));
}

#[test]
fn a_json_error_is_reported_as_a_bad_request_with_the_parser_message() {
    let expected = serde_json::from_str::<serde_json::Value>("{").unwrap_err().to_string();
    let (status, body) = parse_snapshot("{").unwrap_err().status_and_body();
    assert_eq!(status, 400);
    assert_eq!(body.error, format!("JSON error: {}", expected));
    assert!(body.error.contains("line 1"));
}

#[test]
fn each_failure_has_its_status_and_message() {
    let (status, body) = PreviewError::Unauthorized.status_and_body();
    assert_eq!((status, body.error.as_str()), (401, "Unauthorized"));
    let (status, body) = PreviewError::ApiError("upstream said no".to_string()).status_and_body();
    assert_eq!((status, body.error.as_str()), (500, "upstream said no"));
    let (status, body) = PreviewError::SessionError("store down".to_string()).status_and_body();
    assert_eq!((status, body.error.as_str()), (500, "Session error: store down"));
}

#[test]
fn parse_snapshot_reads_each_kind_of_value() {
    let v = parse_snapshot(r#"{"b": [1, -2, 1.5, "s", true, null], "a": {}}"#).unwrap();
    match v {
        JsonValue::Object(fields) => {
            assert_eq!(fields.len(), 2);
            assert_eq!(fields[0].0, "a");
            assert!(matches!(&fields[0].1, JsonValue::Object(inner) if inner.is_empty()));
            assert_eq!(fields[1].0, "b");
            match &fields[1].1 {
                JsonValue::Array(items) => {
                    assert_eq!(items.len(), 6);
                    assert!(matches!(&items[0], JsonValue::Number(JsonNumber::PosInt(1))));
                    assert!(matches!(&items[1], JsonValue::Number(JsonNumber::NegInt(-2))));
                    assert!(matches!(&items[2], JsonValue::Number(JsonNumber::Float(t)) if t == "1.5"));
                    assert!(matches!(&items[3], JsonValue::String(s) if s == "s"));
                    assert!(matches!(&items[4], JsonValue::Bool(true)));
                    assert!(matches!(&items[5], JsonValue::Null));
                }
                _ => panic!("an array was expected"),
            }
        }
        _ => panic!("an object was expected"),
    }
}

#[test]
fn a_key_that_is_written_twice_is_read_once() {
    let v = parse_snapshot(r#"{"a": 1, "a": 2}"#).unwrap();
    match v {
        JsonValue::Object(fields) => {
            assert_eq!(fields.len(), 1);
            assert!(matches!(&fields[0].1, JsonValue::Number(JsonNumber::PosInt(2))));
        }
        _ => panic!("an object was expected"),
    }
}

#[test]
fn containers_are_rendered_as_the_parser_prints_them() {
    let texts = [
        r#"[0.1, 1e300, 5e-324, 1.7976931348623157e308, 0.30000000000000004]"#,
        r#"[123456789012345680000, -2.2250738585072014e-308, 9007199254740993]"#,
        r#"[184467440737095516150, -9223372036854775808, 18446744073709551615, -0.0]"#,
        r#"{"z": [0.1234567890123456789, 3.141592653589793238], "a": "é\t\\ \" /"}"#,
    ];
    for text in texts {
        let expected = serde_json::from_str::<serde_json::Value>(text).unwrap().to_string();
        assert_eq!(format_value(&parse_snapshot(text).unwrap()), expected);
    }
}

fn query(flags: [Option<bool>; 5]) -> PreviewQuery {
    PreviewQuery {
        source_id: "src".to_string(),
        dest_id: "dst".to_string(),
        auth: flags[0],
        postgrest: flags[1],
        edge_functions: flags[2],
        secrets: flags[3],
        postgres: flags[4],
    }
}

#[test]
fn a_query_for_everything_plans_the_five_categories_in_order() {
    let requests = preview_requests(&query([Some(true); 5]));
    let listed: Vec<(&str, &str, &str, &str)> = requests
        .iter()
        .map(|r| (r.service.as_str(), r.what.as_str(), r.source_path.as_str(), r.dest_path.as_str()))
        .collect();
    assert_eq!(
        listed,
        vec![
            ("Auth", "auth", "/projects/src/config/auth", "/projects/dst/config/auth"),
            ("Postgrest", "postgrest", "/projects/src/postgrest", "/projects/dst/postgrest"),
            ("EdgeFunctions", "functions", "/projects/src/functions", "/projects/dst/functions"),
            ("Secrets", "secrets", "/projects/src/secrets", "/projects/dst/secrets"),
            (
                "Postgres",
                "postgres",
                "/projects/src/config/database/postgres",
                "/projects/dst/config/database/postgres"
            ),
        ]
    );
}

#[test]
fn a_query_plans_only_what_it_asks_for() {
    assert!(preview_requests(&query([None; 5])).is_empty());
    assert!(preview_requests(&query([Some(false); 5])).is_empty());
    let requests = preview_requests(&query([None, Some(false), Some(true), None, Some(true)]));
    let services: Vec<&str> = requests.iter().map(|r| r.service.as_str()).collect();
    assert_eq!(services, vec!["EdgeFunctions", "Postgres"]);
}

#[test]
fn management_api_texts() {
    assert_eq!(
        mgmt_api_url("/projects/p/secrets"),
        "https://api.supabase.com/v1/projects/p/secrets"
    );
    assert_eq!(bearer_header("tok"), "Bearer tok");
    match http_failure(404, "not found") {
        PreviewError::ApiError(msg) => {
            assert_eq!(msg, "HTTP request failed with status 404: not found")
        }
        _ => panic!("an API error was expected"),
    }
}

#[test]
fn a_response_collects_the_results_in_order() {
    let mut response = PreviewResponse::new();
    assert!(response.configs.is_empty());
    response.add(entry("Auth", "1", "2").unwrap());
    response.add(entry("Postgrest", "1", "1").unwrap());
    response.add(entry("Secrets", "[]", "[1]").unwrap());
    let names: Vec<&str> = response.configs.iter().map(|c| c.name.as_str()).collect();
    assert_eq!(names, vec!["Auth", "Secrets"]);
    assert_eq!(response.configs[1].diffs[0].key, "[0]");
}

#[test]
fn a_snapshot_that_was_read_has_distinct_keys() {
    let v = parse_snapshot(r#"{"a": {"b": 1, "b": 2}, "a": [{"c": 1, "c": 1}]}"#).unwrap();
    assert!(v.has_distinct_keys());
}
