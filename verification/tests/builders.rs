use libomni::error::ParseError;
use libomni::object::{build_element, build_multi, build_single, capture, extract_field};
use libomni::properties::{
    build_mapping, build_property_element, build_property_field, find_value, has_later, record,
};
use libomni::rules::{find, same_text, FieldRule, MappingRule, ObjectRule, PatternRule, TableFormat};
use libomni::table::build_row;
use libomni::value::Value;

fn text(s: &str) -> Value {
    Value::String(s.to_string())
}

fn groups(items: &[Option<&str>]) -> Vec<Option<String>> {
    items.iter().map(|g| g.map(|s| s.to_string())).collect()
}

fn pairs(items: &[(&str, &str)]) -> Vec<(String, String)> {
    items.iter().map(|(k, v)| (k.to_string(), v.to_string())).collect()
}

fn rule(group: Option<usize>, optional: Option<bool>) -> PatternRule {
    PatternRule {
        regex: "unused".to_string(),
        group,
        transform: None,
        multi_match: None,
        object: None,
        optional,
    }
}

#[test]
fn capture_takes_the_group_or_reports_its_absence() {
    let g = groups(&[Some("a=1"), Some("1"), None]);
    assert_eq!(capture("f", 1, &None, false, &g), Ok(text("1")));
    assert_eq!(capture("f", 0, &None, false, &g), Ok(text("a=1")));
    assert_eq!(capture("f", 2, &None, false, &g), Err(ParseError::MissingRequiredField("f".to_string())));
    assert_eq!(capture("f", 2, &None, true, &g), Ok(Value::Null));
    assert_eq!(capture("f", 3, &None, true, &g), Ok(Value::Null));
    assert_eq!(
        capture("f", 1, &Some("number".to_string()), true, &g),
        Ok(Value::Number("1".to_string()))
    );
    assert_eq!(
        capture("f", 0, &Some("number".to_string()), true, &g),
        Err(ParseError::ValueConversionError("number".to_string(), "a=1".to_string()))
    );
}

#[test]
fn single_field_from_the_first_match() {
    assert_eq!(build_single("f", &rule(None, None), &None), Ok(None));
    assert_eq!(build_single("f", &rule(None, Some(true)), &None), Ok(None));
    let found = Some(groups(&[Some("x y"), Some("x"), Some("y")]));
    assert_eq!(build_single("f", &rule(None, None), &found), Ok(Some(text("x"))));
    assert_eq!(build_single("f", &rule(Some(2), None), &found), Ok(Some(text("y"))));
    assert_eq!(
        build_single("f", &rule(Some(3), None), &found),
        Err(ParseError::MissingRequiredField("f".to_string()))
    );
    assert_eq!(build_single("f", &rule(Some(3), Some(true)), &found), Ok(Some(Value::Null)));
}

#[test]
fn elements_from_matches() {
    let fields = vec![
        ("a".to_string(), ObjectRule { group: 1, transform: None, optional: None }),
        ("b".to_string(), ObjectRule { group: 2, transform: None, optional: Some(true) }),
    ];
    let first = groups(&[Some("1-2"), Some("1"), Some("2")]);
    let second = groups(&[Some("3-"), Some("3"), None]);
    assert_eq!(
        build_element(&fields, &first),
        Ok(Value::Object(vec![("a".to_string(), text("1")), ("b".to_string(), text("2"))]))
    );
    let mut multi = rule(None, None);
    multi.object = Some(fields);
    assert_eq!(
        build_multi(&multi, &vec![first, second]),
        Ok(Value::Array(vec![
            Value::Object(vec![("a".to_string(), text("1")), ("b".to_string(), text("2"))]),
            Value::Object(vec![("a".to_string(), text("3")), ("b".to_string(), Value::Null)]),
        ]))
    );
    let broken = groups(&[Some("-"), None, None]);
    assert_eq!(
        build_multi(&multi, &vec![broken]),
        Err(ParseError::MissingRequiredField("a".to_string()))
    );
}

#[test]
fn extract_field_finds_the_matches() {
    let mut r = rule(None, None);
    r.regex = r"(\d+)-(\d+)".to_string();
    assert_eq!(extract_field("f", &r, "10-20 30-40"), Ok(Some(text("10"))));
    assert_eq!(extract_field("f", &r, "none"), Ok(None));
    r.multi_match = Some(true);
    r.object = Some(vec![("hi".to_string(), ObjectRule { group: 2, transform: None, optional: None })]);
    assert_eq!(
        extract_field("f", &r, "10-20 30-40"),
        Ok(Some(Value::Array(vec![
            Value::Object(vec![("hi".to_string(), text("20"))]),
            Value::Object(vec![("hi".to_string(), text("40"))]),
        ])))
    );
    r.regex = "(".to_string();
    assert_eq!(extract_field("f", &r, "x"), Err(ParseError::RegexCompileError("(".to_string())));
}

#[test]
fn record_needs_both_groups() {
    assert_eq!(record(&None), None);
    assert_eq!(record(&Some(groups(&[Some("k=v"), Some("k")]))), None);
    assert_eq!(record(&Some(groups(&[Some("k=v"), Some("k"), None]))), None);
    assert_eq!(record(&Some(groups(&[Some("k=v"), None, Some("v")]))), None);
    assert_eq!(
        record(&Some(groups(&[Some("k=v"), Some("k"), Some("v"), Some("more")]))),
        Some(("k".to_string(), "v".to_string()))
    );
}

#[test]
fn gathered_lookups() {
    let g = pairs(&[("a", "1"), ("b", "2"), ("a", "3")]);
    assert_eq!(find_value(&g, "a").map(|s| s.as_str()), Some("3"));
    assert_eq!(find_value(&g, "b").map(|s| s.as_str()), Some("2"));
    assert_eq!(find_value(&g, "c"), None);
    assert!(has_later(&g, 0));
    assert!(!has_later(&g, 1));
    assert!(!has_later(&g, 2));
}

#[test]
fn property_fields() {
    let g = pairs(&[("nic1", "nat"), ("mac1", "AA")]);
    let m = groups(&[Some("nic1"), Some("1")]);
    let simple = FieldRule::Simple("value".to_string());
    assert_eq!(build_property_field(&simple, &m, "nat", &g), Ok(Some(text("nat"))));
    let keyed = FieldRule::Complex {
        key: Some("mac\\1".to_string()),
        group: Some(1),
        transform: Some("mac".to_string()),
        optional: None,
    };
    assert_eq!(build_property_field(&keyed, &m, "nat", &g), Ok(Some(text("aa"))));
    let missing = FieldRule::Complex {
        key: Some("speed\\1".to_string()),
        group: None,
        transform: None,
        optional: None,
    };
    assert_eq!(build_property_field(&missing, &m, "nat", &g), Ok(None));
    let fields = vec![("type".to_string(), simple), ("mac".to_string(), keyed), ("speed".to_string(), missing)];
    assert_eq!(
        build_property_element(&fields, &m, "nat", &g),
        Ok(Value::Object(vec![("type".to_string(), text("nat")), ("mac".to_string(), text("aa"))]))
    );
    let mapping = MappingRule { key: Some("mac1".to_string()), transform: None };
    assert_eq!(build_mapping(&mapping, &g), Ok(Some(text("AA"))));
}

#[test]
fn rows_by_position() {
    let format = TableFormat {
        headers: vec!["Name".to_string(), "State".to_string()],
        delimiter: ",".to_string(),
        skip_lines: 0,
    };
    assert_eq!(
        build_row(&format, &None, " vm1 , running "),
        Ok(Some(Value::Object(vec![
            ("Name".to_string(), text("vm1")),
            ("State".to_string(), text("running")),
        ])))
    );
    assert_eq!(build_row(&format, &None, "vm1"), Ok(None));
    assert_eq!(build_row(&format, &None, "a,b,c"), Ok(None));
    assert_eq!(build_row(&format, &None, "   "), Ok(None));
    assert_eq!(
        build_row(&format, &None, ","),
        Ok(Some(Value::Object(vec![("Name".to_string(), text("")), ("State".to_string(), text(""))])))
    );
}

#[test]
fn named_lists_and_text_equality() {
    let list = vec![("a".to_string(), 1), ("b".to_string(), 2), ("a".to_string(), 3)];
    assert_eq!(find(&list, "a"), Some(&3));
    assert_eq!(find(&list, "b"), Some(&2));
    assert_eq!(find(&list, "c"), None);
    assert!(same_text("x", "x"));
    assert!(!same_text("x", "X"));
}

#[test]
fn value_accessors() {
    let v = Value::Object(vec![
        ("k".to_string(), Value::Integer(1)),
        ("k".to_string(), Value::Null),
        ("list".to_string(), Value::Array(vec![text("x")])),
    ]);
    assert_eq!(v.get("k"), Some(&Value::Null));
    assert!(v.get("k").unwrap().is_null());
    assert_eq!(v.get("list").and_then(|l| l.as_array()).map(|l| l.len()), Some(1));
    assert_eq!(v.get("missing"), None);
    assert_eq!(text("x").as_str(), Some("x"));
    assert_eq!(text("x").get("k"), None);
    assert_eq!(Value::Null.as_str(), None);
    assert!(Value::Null.as_array().is_none());
    assert!(!Value::Bool(false).is_null());
}
