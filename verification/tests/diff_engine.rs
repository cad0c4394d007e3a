use migrate_preview::diff::json_diff;
use migrate_preview::models::ProjectConfig;
use migrate_preview::preview::parse_snapshot;

fn diff_of(category: &str, source: &str, dest: &str) -> Option<ProjectConfig> {
    let source_value = parse_snapshot(source).unwrap();
    let dest_value = parse_snapshot(dest).unwrap();
    json_diff(category.to_string(), source_value, dest_value).unwrap()
}

#[test]
fn json_diff_test_object_diff() {
    let config = diff_of("test", r#"{"a": 1, "b": 2}"#, r#"{"a": 1, "b": 3, "c": 4}"#).unwrap();

    assert_eq!(config.diffs.len(), 2); // b changed, c added
    assert!(config
        .diffs
        .iter()
        .any(|d| d.key == "b" && d.dest_value == "3"));
    assert!(config
        .diffs
        .iter()
        .any(|d| d.key == "c" && d.source_value == "null"));
}

#[test]
fn json_diff_test_edge_functions_diff() {
    let source = r#"[
            {"id": "func1", "version": 1},
            {"id": "func2", "version": 1}
        ]"#;
    let dest = r#"[]"#;

    let config = diff_of("test", source, dest).unwrap();

    assert!(!config.diffs.iter().any(|d| d.key == "length"));
    assert!(config.diffs.iter().any(|d| d.key == "id:func1"));
    assert!(config.diffs.iter().any(|d| d.key == "id:func2"));
}

#[test]
fn json_diff_test_no_diff() {
    let source = r#"{"a": 1, "b": "test", "c": true}"#;
    let dest = r#"{"a": 1, "b": "test", "c": true}"#;

    let result = diff_of("test", source, dest);
    assert!(result.is_none());
}

#[test]
fn json_diff_test_nested_object_diff() {
    let source = r#"{
            "user": {
                "name": "John",
                "age": 30,
                "address": {
                    "street": "123 Main St",
                    "city": "Boston"
                }
            }
        }"#;
    let dest = r#"{
            "user": {
                "name": "John",
                "age": 31,
                "address": {
                    "street": "123 Main St",
                    "city": "New York",
                    "zip": "10001"
                }
            }
        }"#;

    let config = diff_of("test", source, dest).unwrap();

    assert_eq!(config.diffs.len(), 3);
    assert!(config
        .diffs
        .iter()
        .any(|d| d.key == "user.age" && d.dest_value == "31"));
    assert!(config
        .diffs
        .iter()
        .any(|d| d.key == "user.address.city" && d.dest_value == "New York"));
    assert!(config
        .diffs
        .iter()
        .any(|d| d.key == "user.address.zip" && d.source_value == "null"));
}

#[test]
fn json_diff_test_array_of_primitives() {
    let source = r#"[1, 2, 3, 4]"#;
    let dest = r#"[1, 2, 5]"#;

    let config = diff_of("test", source, dest).unwrap();

    // No length diff
    assert!(!config.diffs.iter().any(|d| d.key == "length"));
    assert!(config
        .diffs
        .iter()
        .any(|d| d.key == "[2]" && d.source_value == "3" && d.dest_value == "5"));
    assert!(config
        .diffs
        .iter()
        .any(|d| d.key == "[3]" && d.source_value == "4" && d.dest_value == "null"));
}

#[test]
fn json_diff_test_secrets_with_supabase_filter() {
    let source = r#"[
            {"name": "MY_SECRET", "updated_at": "2025-01-01T00:00:00Z", "value": "secret1"},
            {"name": "SUPABASE_URL", "updated_at": "2025-01-01T00:00:00Z", "value": "old_url"},
            {"name": "ANOTHER_SECRET", "updated_at": "2025-01-01T00:00:00Z", "value": "secret2"}
        ]"#;
    let dest = r#"[
            {"name": "MY_SECRET", "updated_at": "2025-01-02T00:00:00Z", "value": "secret1_new"},
            {"name": "SUPABASE_URL", "updated_at": "2025-01-02T00:00:00Z", "value": "new_url"},
            {"name": "SUPABASE_ANON_KEY", "updated_at": "2025-01-02T00:00:00Z", "value": "anon_key"}
        ]"#;

    let config = diff_of("Secrets", source, dest).unwrap();

    // After filtering SUPABASE_ secrets:
    // Source has: MY_SECRET, ANOTHER_SECRET
    // Dest has: MY_SECRET
    // So we should see:
    // - [0] changed (MY_SECRET value changed)
    // - [1] removed (ANOTHER_SECRET)
    assert_eq!(config.diffs.len(), 2);
    assert!(config.diffs.iter().any(|d| d.key == "[0]")); // MY_SECRET changed
    assert!(config
        .diffs
        .iter()
        .any(|d| d.key == "[1]" && d.source_value.contains("ANOTHER_SECRET"))); // ANOTHER_SECRET removed

    // Should not have any SUPABASE_ related diffs
    for diff in &config.diffs {
        assert!(!diff.source_value.contains("SUPABASE_"));
        assert!(!diff.dest_value.contains("SUPABASE_"));
    }
}

#[test]
fn json_diff_test_array_object_diff_whole_object() {
    let source = r#"[
            {"name": "item1", "value": 100, "active": true}
        ]"#;
    let dest = r#"[
            {"name": "item1", "value": 200, "active": true}
        ]"#;

    let config = diff_of("test", source, dest).unwrap();

    // Should report the whole object as changed
    assert_eq!(config.diffs.len(), 1);
    assert!(config.diffs.iter().any(|d| d.key == "[0]"));
    assert!(config.diffs[0].source_value.contains("\"value\":100"));
    assert!(config.diffs[0].dest_value.contains("\"value\":200"));
}

fn triples(config: &ProjectConfig) -> Vec<(String, String, String)> {
    config
        .diffs
        .iter()
        .map(|d| (d.key.clone(), d.source_value.clone(), d.dest_value.clone()))
        .collect()
}

fn triple(key: &str, old: &str, new: &str) -> (String, String, String) {
    (key.to_string(), old.to_string(), new.to_string())
}

#[test]
fn result_carries_the_category_name() {
    let config = diff_of("Auth", "1", "2").unwrap();
    assert_eq!(config.name, "Auth");
}

#[test]
fn scalars_at_the_top_are_reported_at_root() {
    let config = diff_of("x", "1", "2").unwrap();
    assert_eq!(triples(&config), vec![triple("root", "1", "2")]);
}

#[test]
fn strings_are_rendered_without_quotes() {
    let config = diff_of("x", r#"{"a": "old \"text\""}"#, r#"{"a": "new"}"#).unwrap();
    assert_eq!(triples(&config), vec![triple("a", "old \"text\"", "new")]);
}

#[test]
fn booleans_null_and_negative_numbers_are_rendered_as_json() {
    let config = diff_of("x", r#"[true, null, -12, 1.5]"#, r#"[false, 0, null, 2.5e-7]"#).unwrap();
    assert_eq!(
        triples(&config),
        vec![
            triple("[0]", "true", "false"),
            triple("[1]", "null", "0"),
            triple("[2]", "-12", "null"),
            triple("[3]", "1.5", "2.5e-7"),
        ]
    );
}

#[test]
fn an_array_against_an_object_is_one_record_with_compact_text() {
    let config = diff_of("x", r#"{"k": [1, "a", null]}"#, r#"{"k": {"b": 1, "a": [true]}}"#).unwrap();
    assert_eq!(
        triples(&config),
        vec![triple("k", r#"[1,"a",null]"#, r#"{"a":[true],"b":1}"#)]
    );
}

#[test]
fn whole_object_replacement_renders_both_objects() {
    let source = r#"[{"name": "item1", "value": 100, "active": true}]"#;
    let dest = r#"[{"name": "item1", "value": 200, "active": true}]"#;
    let config = diff_of("x", source, dest).unwrap();
    assert_eq!(
        triples(&config),
        vec![triple(
            "[0]",
            r#"{"active":true,"name":"item1","value":100}"#,
            r#"{"active":true,"name":"item1","value":200}"#
        )]
    );
}

#[test]
fn object_fields_added_and_removed() {
    let config = diff_of("x", r#"{"a":1,"b":2,"d":{"e":1}}"#, r#"{"a":1,"b":3,"c":4}"#).unwrap();
    assert_eq!(
        triples(&config),
        vec![
            triple("b", "2", "3"),
            triple("d", r#"{"e":1}"#, "null"),
            triple("c", "null", "4"),
        ]
    );
}

#[test]
fn identity_matched_array_full_removal() {
    let config = diff_of("x", r#"[{"id":"f1","v":1},{"id":"f2","v":1}]"#, "[]").unwrap();
    assert_eq!(
        triples(&config),
        vec![
            triple("id:f1", r#"{"id":"f1","v":1}"#, "null"),
            triple("id:f2", r#"{"id":"f2","v":1}"#, "null"),
        ]
    );
}

#[test]
fn identity_matched_array_ignores_positions() {
    let source = r#"{"fns": [{"id":"a","v":1},{"id":"b","v":2},{"id":"c","v":3}]}"#;
    let dest = r#"{"fns": [{"id":"d","v":9},{"id":"b","v":2},{"id":"a","v":7}]}"#;
    let config = diff_of("x", source, dest).unwrap();
    assert_eq!(
        triples(&config),
        vec![
            triple("fns.id:a.v", "1", "7"),
            triple("fns.id:c", r#"{"id":"c","v":3}"#, "null"),
            triple("fns.id:d", "null", r#"{"id":"d","v":9}"#),
        ]
    );
}

#[test]
fn identities_on_one_side_only_are_all_added() {
    let config = diff_of("x", r#"[1, {"name":"n"}]"#, r#"[{"id":"a"}, 5, {"id":"b"}]"#).unwrap();
    assert_eq!(
        triples(&config),
        vec![
            triple("id:a", "null", r#"{"id":"a"}"#),
            triple("id:b", "null", r#"{"id":"b"}"#),
        ]
    );
}

#[test]
fn the_last_element_of_an_identity_stands_for_it() {
    let source = r#"[{"id":"a","v":1},{"id":"a","v":2}]"#;
    let dest = r#"[{"id":"a","v":2}]"#;
    assert!(diff_of("x", source, dest).is_none());
    let config = diff_of("x", dest, r#"[{"id":"a","v":2},{"id":"a","v":1}]"#).unwrap();
    assert_eq!(triples(&config), vec![triple("id:a.v", "2", "1")]);
}

#[test]
fn an_id_that_is_no_string_is_no_identity() {
    let config = diff_of("x", r#"[{"id":1,"v":1}]"#, r#"[{"id":1,"v":2}]"#).unwrap();
    assert_eq!(
        triples(&config),
        vec![triple("[0]", r#"{"id":1,"v":1}"#, r#"{"id":1,"v":2}"#)]
    );
}

#[test]
fn index_fallback_descends_into_arrays() {
    let config = diff_of("x", r#"{"m": [[1, 2], [3]]}"#, r#"{"m": [[1, 5], [3], 4]}"#).unwrap();
    assert_eq!(
        triples(&config),
        vec![triple("m[0][1]", "2", "5"), triple("m[2]", "null", "4")]
    );
}

#[test]
fn index_path_counts_in_decimal() {
    let source = "[0,1,2,3,4,5,6,7,8,9,10,11]";
    let dest = "[0,1,2,3,4,5,6,7,8,9,10,12]";
    let config = diff_of("x", source, dest).unwrap();
    assert_eq!(triples(&config), vec![triple("[11]", "11", "12")]);
}

#[test]
fn equal_objects_in_another_order_show_no_difference() {
    assert!(diff_of("x", r#"[{"a":1,"b":[2]}]"#, r#"[{"b":[2],"a":1}]"#).is_none());
}

#[test]
fn the_two_zeros_are_equal_and_an_integer_is_no_double() {
    assert!(diff_of("x", "[0.0]", "[-0.0]").is_none());
    let config = diff_of("x", "[1]", "[1.0]").unwrap();
    assert_eq!(triples(&config), vec![triple("[0]", "1", "1.0")]);
}

#[test]
fn reflexivity_on_a_nested_value() {
    let text = r#"{"a":[{"id":"x","v":[1,2,{"k":null}]},{"id":"y"}],"b":[1,"two",[3.5]],"c":{"d":{"e":false}}}"#;
    assert!(diff_of("test", text, text).is_none());
    assert!(diff_of("Secrets", text, text).is_none());
    let secrets = r#"[{"name":"SUPABASE_URL","value":"u"},{"name":"MINE","value":"m"}]"#;
    assert!(diff_of("Secrets", secrets, secrets).is_none());
}

#[test]
fn detection_is_symmetric() {
    let pairs = [
        (r#"{"a":1}"#, r#"{"a":1,"b":2}"#),
        (r#"[{"id":"a"}]"#, r#"[1]"#),
        (r#"[{"id":"a","v":1}]"#, r#"[{"id":"a","v":1},{"v":2}]"#),
        (r#"[1,2]"#, r#"[1,2]"#),
        (r#"[{"x":1}]"#, r#"[{"x":2}]"#),
        (r#"{"a":[1,2,3]}"#, r#"{"a":[1,2]}"#),
    ];
    for (a, b) in pairs {
        assert_eq!(diff_of("x", a, b).is_some(), diff_of("x", b, a).is_some());
        assert_eq!(diff_of("Secrets", a, b).is_some(), diff_of("Secrets", b, a).is_some());
    }
}

#[test]
fn secrets_filter_applies_to_the_secrets_category_only() {
    let source = r#"[{"name":"SUPABASE_URL","value":"a"}]"#;
    let dest = r#"[]"#;
    assert!(diff_of("Secrets", source, dest).is_none());
    assert!(diff_of("secrets", source, dest).is_some());
    assert!(diff_of("Auth", source, dest).is_some());
}

#[test]
fn secrets_filter_needs_two_arrays_and_the_exact_prefix() {
    let wrapped = r#"{"list":[{"name":"SUPABASE_URL","value":"a"}]}"#;
    assert!(diff_of("Secrets", wrapped, r#"{"list":[]}"#).is_some());
    let lower = r#"[{"name":"supabase_url","value":"a"}]"#;
    assert!(diff_of("Secrets", lower, "[]").is_some());
    let short = r#"[{"name":"SUPABASE","value":"a"}]"#;
    assert!(diff_of("Secrets", short, "[]").is_some());
    let no_string = r#"[{"name":7}]"#;
    assert!(diff_of("Secrets", no_string, "[]").is_some());
}

#[test]
fn a_reserved_secret_changes_nothing() {
    let source = r#"[{"name":"A","value":"1"},{"name":"B","value":"2"}]"#;
    let with_secret = r#"[{"name":"A","value":"1"},{"name":"SUPABASE_DB_URL","value":"x"},{"name":"B","value":"2"}]"#;
    let dest = r#"[{"name":"A","value":"1"},{"name":"B","value":"3"}]"#;
    let plain = diff_of("Secrets", source, dest).unwrap();
    let padded = diff_of("Secrets", with_secret, dest).unwrap();
    assert_eq!(triples(&plain), triples(&padded));
    let other_side = diff_of("Secrets", dest, with_secret).unwrap();
    assert_eq!(triples(&other_side), triples(&diff_of("Secrets", dest, source).unwrap()));
}
