use migrate_preview::json::{get_string_field, find_key, numbers_equal, values_equal, JsonNumber, JsonValue};
use migrate_preview::render::format_value;
use migrate_preview::text::{decimal_text, signed_decimal_text, starts_with};

fn text(s: &str) -> JsonValue {
    JsonValue::String(s.to_string())
}

fn whole(n: u64) -> JsonValue {
    JsonValue::Number(JsonNumber::PosInt(n))
}

fn object(fields: Vec<(&str, JsonValue)>) -> JsonValue {
    JsonValue::Object(fields.into_iter().map(|(k, v)| (k.to_string(), v)).collect())
}

#[test]
fn decimal_text_of_small_and_large_numbers() {
    assert_eq!(decimal_text(0), "0");
    assert_eq!(decimal_text(7), "7");
    assert_eq!(decimal_text(10), "10");
    assert_eq!(decimal_text(1234567890), "1234567890");
    assert_eq!(decimal_text(u64::MAX), "18446744073709551615");
}

#[test]
fn signed_decimal_text_of_the_extremes() {
    assert_eq!(signed_decimal_text(0), "0");
    assert_eq!(signed_decimal_text(-1), "-1");
    assert_eq!(signed_decimal_text(42), "42");
    assert_eq!(signed_decimal_text(i64::MAX), "9223372036854775807");
    assert_eq!(signed_decimal_text(i64::MIN), "-9223372036854775808");
}

#[test]
fn starts_with_compares_characters() {
    assert!(starts_with("SUPABASE_URL", "SUPABASE_"));
    assert!(starts_with("SUPABASE_", "SUPABASE_"));
    assert!(starts_with("anything", ""));
    assert!(!starts_with("SUPABASE", "SUPABASE_"));
    assert!(!starts_with("XSUPABASE_", "SUPABASE_"));
    assert!(!starts_with("", "S"));
    assert!(starts_with("größe", "grö"));
    assert!(!starts_with("grosse", "grö"));
}

#[test]
fn numbers_are_equal_by_value() {
    assert!(numbers_equal(&JsonNumber::PosInt(3), &JsonNumber::PosInt(3)));
    assert!(numbers_equal(&JsonNumber::PosInt(3), &JsonNumber::NegInt(3)));
    assert!(numbers_equal(&JsonNumber::NegInt(-3), &JsonNumber::NegInt(-3)));
    assert!(!numbers_equal(&JsonNumber::PosInt(3), &JsonNumber::NegInt(-3)));
    assert!(!numbers_equal(&JsonNumber::PosInt(u64::MAX), &JsonNumber::NegInt(-1)));
    assert!(!numbers_equal(&JsonNumber::PosInt(1), &JsonNumber::Float("1.0".to_string())));
    assert!(numbers_equal(
        &JsonNumber::Float(1.5f64.to_string()),
        &JsonNumber::Float("1.5".to_string())
    ));
    assert!(numbers_equal(
        &JsonNumber::Float("0.0".to_string()),
        &JsonNumber::Float("-0.0".to_string())
    ));
    assert!(!numbers_equal(
        &JsonNumber::Float("0.0".to_string()),
        &JsonNumber::Float("0.5".to_string())
    ));
}

#[test]
fn values_are_equal_structurally() {
    let a = object(vec![("x", whole(1)), ("y", JsonValue::Array(vec![text("t"), JsonValue::Null]))]);
    let b = object(vec![("y", JsonValue::Array(vec![text("t"), JsonValue::Null])), ("x", whole(1))]);
    let c = object(vec![("x", whole(1))]);
    assert!(values_equal(&a, &b));
    assert!(values_equal(&b, &a));
    assert!(!values_equal(&a, &c));
    assert!(!values_equal(&c, &a));
    assert!(!values_equal(&JsonValue::Array(vec![]), &object(vec![])));
    assert!(!values_equal(&JsonValue::Bool(true), &JsonValue::Bool(false)));
    assert!(!values_equal(&text("1"), &whole(1)));
    assert!(!values_equal(
        &JsonValue::Array(vec![whole(1), whole(2)]),
        &JsonValue::Array(vec![whole(2), whole(1)])
    ));
}

#[test]
fn a_clone_is_equal_to_what_was_cloned() {
    let a = object(vec![
        ("x", JsonValue::Number(JsonNumber::Float("2.5".to_string()))),
        ("y", JsonValue::Array(vec![text("t"), JsonValue::Null, object(vec![("z", whole(9))])])),
    ]);
    let b = a.clone();
    assert!(values_equal(&a, &b));
    assert_eq!(format_value(&a), format_value(&b));
}

#[test]
fn find_key_gives_the_last_field_of_the_name() {
    let fields = vec![
        ("a".to_string(), whole(1)),
        ("b".to_string(), whole(2)),
        ("a".to_string(), whole(3)),
    ];
    assert_eq!(find_key(&fields, &"a".to_string()), Some(2));
    assert_eq!(find_key(&fields, &"b".to_string()), Some(1));
    assert_eq!(find_key(&fields, &"c".to_string()), None);
}

#[test]
fn get_string_field_wants_an_object_and_a_string() {
    let v = object(vec![("id", text("f1")), ("n", whole(1))]);
    assert_eq!(get_string_field(&v, &"id".to_string()), Some(&"f1".to_string()));
    assert_eq!(get_string_field(&v, &"n".to_string()), None);
    assert_eq!(get_string_field(&v, &"missing".to_string()), None);
    assert_eq!(get_string_field(&text("id"), &"id".to_string()), None);
}

#[test]
fn format_value_of_each_kind() {
    assert_eq!(format_value(&JsonValue::Null), "null");
    assert_eq!(format_value(&JsonValue::Bool(true)), "true");
    assert_eq!(format_value(&JsonValue::Bool(false)), "false");
    assert_eq!(format_value(&whole(100)), "100");
    assert_eq!(format_value(&JsonValue::Number(JsonNumber::NegInt(-7))), "-7");
    assert_eq!(
        format_value(&JsonValue::Number(JsonNumber::Float("1e-7".to_string()))),
        "1e-7"
    );
    assert_eq!(format_value(&text("say \"hi\"\n")), "say \"hi\"\n");
    assert_eq!(format_value(&JsonValue::Array(vec![])), "[]");
    assert_eq!(format_value(&object(vec![])), "{}");
}

#[test]
fn format_value_writes_containers_as_compact_json() {
    let v = object(vec![
        ("b", JsonValue::Array(vec![whole(1), text("q\"uote\n"), JsonValue::Null])),
        ("a", JsonValue::Number(JsonNumber::Float("2.5".to_string()))),
        ("c", JsonValue::Number(JsonNumber::NegInt(-3))),
    ]);
    assert_eq!(format_value(&v), r#"{"a":2.5,"b":[1,"q\"uote\n",null],"c":-3}"#);
}

#[test]
fn rendering_twice_gives_one_text() {
    let v = object(vec![("k", JsonValue::Array(vec![whole(1), object(vec![("z", text("w"))])]))]);
    assert_eq!(format_value(&v), format_value(&v));
    assert_eq!(format_value(&v), r#"{"k":[1,{"z":"w"}]}"#);
}

#[test]
fn has_distinct_keys_looks_at_every_depth() {
    let good = object(vec![("a", whole(1)), ("b", JsonValue::Array(vec![object(vec![("a", whole(2))])]))]);
    assert!(good.has_distinct_keys());
    assert!(text("x").has_distinct_keys());
    assert!(JsonValue::Array(vec![]).has_distinct_keys());
    let twice = object(vec![("a", whole(1)), ("b", whole(2)), ("a", whole(3))]);
    assert!(!twice.has_distinct_keys());
    let deep = object(vec![("k", JsonValue::Array(vec![whole(1), object(vec![("z", whole(1)), ("z", whole(1))])]))]);
    assert!(!deep.has_distinct_keys());
}
