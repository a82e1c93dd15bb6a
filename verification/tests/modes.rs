use libomni::error::ParseError;
use libomni::parser::{diagnose, OutputParser};
use libomni::rules::{
    rule_set, Action, ArrayPattern, FieldRule, MappingRule, ObjectRule, ParseRules, PatternRule,
    TableFormat,
};
use libomni::transform::{is_decimal_number, is_not_finite};
use libomni::value::Value;

fn text(s: &str) -> Value {
    Value::String(s.to_string())
}

fn number(s: &str) -> Value {
    Value::Number(s.to_string())
}

fn object(entries: Vec<(&str, Value)>) -> Value {
    Value::Object(entries.into_iter().map(|(k, v)| (k.to_string(), v)).collect())
}

fn rules(mode: &str) -> ParseRules {
    ParseRules {
        parse_type: mode.to_string(),
        separator: None,
        patterns: None,
        property_pattern: None,
        mappings: None,
        array_patterns: None,
        format_type: None,
        transformers: None,
    }
}

fn modern(parse_rules: ParseRules) -> Action {
    Action::Modern {
        command: "command".to_string(),
        params: vec![],
        parse_rules,
        pre_exec: vec![],
        post_exec: vec![],
    }
}

fn legacy(success_exit_code: Option<i32>, parse_output: Option<&str>) -> Action {
    Action::Legacy {
        command: "command".to_string(),
        params: vec![],
        success_exit_code,
        parse_output: parse_output.map(|s| s.to_string()),
        pre_exec: vec![],
        post_exec: vec![],
    }
}

fn pattern(regex: &str) -> PatternRule {
    PatternRule {
        regex: regex.to_string(),
        group: None,
        transform: None,
        multi_match: None,
        object: None,
        optional: None,
    }
}

fn run(parse_rules: ParseRules, formats: Vec<(String, TableFormat)>, output: &str) -> Result<Value, ParseError> {
    let action = modern(parse_rules);
    let parser = OutputParser::new(&action, formats);
    parser.parse(output, &action)
}

fn object_rules(patterns: Vec<(&str, PatternRule)>) -> ParseRules {
    let mut r = rules("object");
    r.patterns = Some(patterns.into_iter().map(|(k, v)| (k.to_string(), v)).collect());
    r
}

fn vm_table() -> Vec<(String, TableFormat)> {
    vec![(
        "vms".to_string(),
        TableFormat {
            headers: vec!["Name".to_string(), "State".to_string()],
            delimiter: " ".to_string(),
            skip_lines: 1,
        },
    )]
}

fn table_rules(format: Option<&str>) -> ParseRules {
    let mut r = rules("table");
    r.format_type = format.map(|s| s.to_string());
    r
}

#[test]
fn rule_set_is_that_of_a_modern_action() {
    let action = modern(rules("object"));
    assert_eq!(rule_set(&action).map(|r| r.parse_type.as_str()), Some("object"));
    let action = legacy(None, None);
    assert!(rule_set(&action).is_none());
}

#[test]
fn object_mode_scenario() {
    let mut memory = pattern(r"Memory size:\s+(\d+)MB");
    memory.transform = Some("number".to_string());
    let r = object_rules(vec![("name", pattern(r"Name:\s+(.+)")), ("memory_mb", memory)]);
    let result = run(r, vec![], "Name: test-vm\nMemory size: 2048MB\n").unwrap();
    assert_eq!(result, object(vec![("name", text("test-vm")), ("memory_mb", number("2048"))]));
    assert_eq!(result.get("name").and_then(|v| v.as_str()), Some("test-vm"));
    match result.get("memory_mb") {
        Some(Value::Number(literal)) => assert_eq!(literal.parse::<f64>().unwrap(), 2048.0),
        other => panic!("unexpected {:?}", other),
    }
}

#[test]
fn multi_match_scenario() {
    let mut nics = pattern(r"NIC (\d+):\s+(.+)");
    nics.multi_match = Some(true);
    nics.object = Some(vec![
        (
            "index".to_string(),
            ObjectRule { group: 1, transform: Some("number".to_string()), optional: None },
        ),
        ("type".to_string(), ObjectRule { group: 2, transform: None, optional: None }),
    ]);
    let result = run(object_rules(vec![("networks", nics)]), vec![], "NIC 1: NAT\nNIC 2: bridged").unwrap();
    assert_eq!(
        result,
        object(vec![(
            "networks",
            Value::Array(vec![
                object(vec![("index", number("1")), ("type", text("NAT"))]),
                object(vec![("index", number("2")), ("type", text("bridged"))]),
            ])
        )])
    );
    let networks = result.get("networks").and_then(|v| v.as_array()).unwrap();
    assert_eq!(networks.len(), 2);
}

#[test]
fn multi_match_without_matches_or_fields_is_an_empty_array() {
    let mut nics = pattern(r"NIC (\d+)");
    nics.multi_match = Some(true);
    nics.object = Some(vec![("index".to_string(), ObjectRule { group: 1, transform: None, optional: None })]);
    let result = run(object_rules(vec![("networks", nics)]), vec![], "nothing here").unwrap();
    assert_eq!(result, object(vec![("networks", Value::Array(vec![]))]));

    let mut bare = pattern(r"NIC (\d+)");
    bare.multi_match = Some(true);
    let result = run(object_rules(vec![("networks", bare)]), vec![], "NIC 1 NIC 2").unwrap();
    assert_eq!(result, object(vec![("networks", Value::Array(vec![]))]));
}

#[test]
fn multi_match_element_group_that_took_no_part() {
    let fields = |optional: Option<bool>| {
        vec![
            ("letter".to_string(), ObjectRule { group: 1, transform: None, optional: None }),
            ("digit".to_string(), ObjectRule { group: 2, transform: None, optional }),
        ]
    };
    let mut required = pattern(r"([a-z])([0-9])?;");
    required.multi_match = Some(true);
    required.object = Some(fields(None));
    assert_eq!(
        run(object_rules(vec![("items", required)]), vec![], "a1;b;"),
        Err(ParseError::MissingRequiredField("digit".to_string()))
    );
    let mut optional = pattern(r"([a-z])([0-9])?;");
    optional.multi_match = Some(true);
    optional.object = Some(fields(Some(true)));
    assert_eq!(
        run(object_rules(vec![("items", optional)]), vec![], "a1;b;"),
        Ok(object(vec![(
            "items",
            Value::Array(vec![
                object(vec![("letter", text("a")), ("digit", text("1"))]),
                object(vec![("letter", text("b")), ("digit", Value::Null)]),
            ])
        )]))
    );
}

#[test]
fn unmatched_field_is_left_out_and_is_no_failure() {
    let r = object_rules(vec![("name", pattern(r"Name: (\w+)")), ("owner", pattern(r"Owner: (\w+)"))]);
    let result = run(r, vec![], "Name: vm1").unwrap();
    assert_eq!(result, object(vec![("name", text("vm1"))]));
    assert!(result.get("owner").is_none());

    let mut optional = pattern(r"Owner: (\w+)");
    optional.optional = Some(true);
    let result = run(object_rules(vec![("owner", optional)]), vec![], "Name: vm1").unwrap();
    assert_eq!(result, object(vec![]));
}

#[test]
fn group_that_took_no_part_fails_unless_optional() {
    let r = object_rules(vec![("kind", pattern(r"Type: (?:(\w+)|-)"))]);
    assert_eq!(
        run(r, vec![], "Type: -"),
        Err(ParseError::MissingRequiredField("kind".to_string()))
    );
    let mut lenient = pattern(r"Type: (?:(\w+)|-)");
    lenient.optional = Some(true);
    assert_eq!(
        run(object_rules(vec![("kind", lenient)]), vec![], "Type: -"),
        Ok(object(vec![("kind", Value::Null)]))
    );
    let mut out_of_range = pattern(r"Type: (\w+)");
    out_of_range.group = Some(5);
    assert_eq!(
        run(object_rules(vec![("kind", out_of_range)]), vec![], "Type: disk"),
        Err(ParseError::MissingRequiredField("kind".to_string()))
    );
}

#[test]
fn group_zero_is_the_whole_match_and_the_first_match_counts() {
    let mut whole = pattern(r"id=(\d+)");
    whole.group = Some(0);
    let r = object_rules(vec![("whole", whole), ("first", pattern(r"id=(\d+)"))]);
    assert_eq!(
        run(r, vec![], "id=1 id=2"),
        Ok(object(vec![("whole", text("id=1")), ("first", text("1"))]))
    );
}

#[test]
fn first_failure_in_rule_order_is_the_result() {
    let mut size = pattern(r"Size: (\w+)");
    size.transform = Some("number".to_string());
    let r = object_rules(vec![("size", size), ("bad", pattern("("))]);
    assert_eq!(
        run(r, vec![], "Size: big"),
        Err(ParseError::ValueConversionError("number".to_string(), "big".to_string()))
    );
    let mut size = pattern(r"Size: (\w+)");
    size.transform = Some("number".to_string());
    let r = object_rules(vec![("bad", pattern("(")), ("size", size)]);
    assert_eq!(run(r, vec![], "Size: big"), Err(ParseError::RegexCompileError("(".to_string())));
}

#[test]
fn a_later_rule_of_the_same_name_replaces_an_earlier_one() {
    let r = object_rules(vec![("v", pattern(r"a=(\d)")), ("v", pattern(r"b=(\d)"))]);
    let result = run(r, vec![], "a=1 b=2").unwrap();
    assert_eq!(result.get("v"), Some(&text("2")));
    let r = object_rules(vec![("v", pattern(r"a=(\d)")), ("v", pattern(r"c=(\d)"))]);
    let result = run(r, vec![], "a=1 b=2").unwrap();
    assert_eq!(result.get("v"), Some(&text("1")));
}

#[test]
fn object_mode_without_patterns_is_the_empty_object() {
    assert_eq!(run(rules("object"), vec![], "anything"), Ok(object(vec![])));
}

#[test]
fn parsing_twice_gives_equal_results() {
    let make = || {
        let mut memory = pattern(r"Memory size:\s+(\d+)MB");
        memory.transform = Some("number".to_string());
        object_rules(vec![("name", pattern(r"Name:\s+(.+)")), ("memory_mb", memory)])
    };
    let action = modern(make());
    let parser = OutputParser::new(&action, vec![]);
    let output = "Name: test-vm\nMemory size: 2048MB\n";
    let first = parser.parse(output, &action);
    let second = parser.parse(output, &action);
    assert_eq!(first, second);
    assert_eq!(run(make(), vec![], output), first);
    let failing = object_rules(vec![("bad", pattern("["))]);
    assert_eq!(run(failing, vec![], output), Err(ParseError::RegexCompileError("[".to_string())));
}

#[test]
fn array_mode_scenario() {
    let mut r = rules("array");
    let mut size = pattern(r"Capacity:\s+(\d+) MBytes");
    size.transform = Some("number".to_string());
    let mut parent = pattern(r"Parent UUID:\s+(.+)");
    parent.optional = Some(true);
    r.patterns = Some(vec![
        ("id".to_string(), pattern(r"UUID:\s+(.+)")),
        ("path".to_string(), pattern(r"Location:\s+(.+)")),
        ("size_mb".to_string(), size),
        ("parent".to_string(), parent),
    ]);
    let output = "UUID: disk1\nLocation: /d1.vdi\nCapacity: 1024 MBytes\n\nUUID: disk2\nLocation: /d2.vdi\nCapacity: 2048 MBytes\nParent UUID: p1\n";
    let result = run(r, vec![], output).unwrap();
    let items = result.as_array().unwrap();
    assert_eq!(items.len(), 2);
    assert_eq!(items[0].get("id"), Some(&text("disk1")));
    assert_eq!(items[0].get("size_mb"), Some(&number("1024")));
    assert_eq!(items[0].get("parent"), None);
    assert_eq!(items[1].get("id"), Some(&text("disk2")));
    assert_eq!(items[1].get("path"), Some(&text("/d2.vdi")));
    assert_eq!(items[1].get("parent"), Some(&text("p1")));
}

#[test]
fn array_mode_optional_group_gives_null() {
    let mut r = rules("array");
    let mut parent = pattern(r"Parent:(?: (\w+))?");
    parent.optional = Some(true);
    r.patterns = Some(vec![("id".to_string(), pattern(r"UUID: (\w+)")), ("parent".to_string(), parent)]);
    let result = run(r, vec![], "UUID: d1\nParent:\n\nUUID: d2\nParent: p2\n").unwrap();
    assert_eq!(
        result,
        Value::Array(vec![
            object(vec![("id", text("d1")), ("parent", Value::Null)]),
            object(vec![("id", text("d2")), ("parent", text("p2"))]),
        ])
    );
}

#[test]
fn array_mode_drops_blank_segments_and_keeps_order() {
    let mut r = rules("array");
    r.patterns = Some(vec![("id".to_string(), pattern(r"id=(\w+)"))]);
    let output = "\n\nid=a\n\n\n\n  \t\n\nid=b\n\nno match here\n\nid=c\n\n";
    let result = run(r, vec![], output).unwrap();
    assert_eq!(
        result,
        Value::Array(vec![
            object(vec![("id", text("a"))]),
            object(vec![("id", text("b"))]),
            object(vec![]),
            object(vec![("id", text("c"))]),
        ])
    );
    let mut r = rules("array");
    r.patterns = Some(vec![("id".to_string(), pattern(r"id=(\w+)"))]);
    assert_eq!(run(r, vec![], " \n\n \n"), Ok(Value::Array(vec![])));
}

#[test]
fn array_mode_with_its_own_separator_and_a_failing_segment() {
    let mut r = rules("array");
    r.separator = Some("---".to_string());
    let mut n = pattern(r"n=(\w+)");
    n.transform = Some("number".to_string());
    r.patterns = Some(vec![("n".to_string(), n)]);
    assert_eq!(
        run(r, vec![], "n=1---n=2"),
        Ok(Value::Array(vec![object(vec![("n", number("1"))]), object(vec![("n", number("2"))])]))
    );
    let mut r = rules("array");
    r.separator = Some("---".to_string());
    let mut n = pattern(r"n=(\w+)");
    n.transform = Some("number".to_string());
    r.patterns = Some(vec![("n".to_string(), n)]);
    assert_eq!(
        run(r, vec![], "n=1---n=x---n=y"),
        Err(ParseError::ValueConversionError("number".to_string(), "x".to_string()))
    );
}

#[test]
fn table_mode_scenario() {
    let result = run(table_rules(Some("vms")), vm_table(), "HEADER\nvm1 running\n").unwrap();
    assert_eq!(
        result,
        Value::Array(vec![object(vec![("Name", text("vm1")), ("State", text("running"))])])
    );
}

#[test]
fn table_mode_drops_rows_of_another_width() {
    let output = "Name State\nvm1 running\nvm2\n\nvm3 powered off\n  vm4 stopped  \nvm5  saved\n";
    let result = run(table_rules(Some("vms")), vm_table(), output).unwrap();
    assert_eq!(
        result,
        Value::Array(vec![
            object(vec![("Name", text("vm1")), ("State", text("running"))]),
            object(vec![("Name", text("vm4")), ("State", text("stopped"))]),
        ])
    );
}

#[test]
fn table_mode_skips_more_lines_than_there_are() {
    let formats = vec![(
        "t".to_string(),
        TableFormat { headers: vec!["A".to_string()], delimiter: ",".to_string(), skip_lines: 10 },
    )];
    assert_eq!(run(table_rules(Some("t")), formats, "x\ny\n"), Ok(Value::Array(vec![])));
}

#[test]
fn table_mode_transforms_columns_by_header() {
    let formats = vec![(
        "disks".to_string(),
        TableFormat {
            headers: vec!["name".to_string(), "size".to_string(), "tags".to_string()],
            delimiter: "|".to_string(),
            skip_lines: 0,
        },
    )];
    let mut r = table_rules(Some("disks"));
    r.transformers = Some(vec![
        ("size".to_string(), "number".to_string()),
        ("tags".to_string(), "array".to_string()),
    ]);
    let result = run(r, formats, " d1 | 10 | a, b \n d2 | 2.5 | \n").unwrap();
    assert_eq!(
        result,
        Value::Array(vec![
            object(vec![
                ("name", text("d1")),
                ("size", number("10")),
                ("tags", Value::Array(vec![text("a"), text("b")])),
            ]),
            object(vec![("name", text("d2")), ("size", number("2.5")), ("tags", Value::Array(vec![]))]),
        ])
    );
    let formats = vec![(
        "disks".to_string(),
        TableFormat {
            headers: vec!["name".to_string(), "size".to_string()],
            delimiter: "|".to_string(),
            skip_lines: 0,
        },
    )];
    let mut r = table_rules(Some("disks"));
    r.transformers = Some(vec![("size".to_string(), "number".to_string())]);
    assert_eq!(
        run(r, formats, "d1|10\nd2|big\n"),
        Err(ParseError::ValueConversionError("number".to_string(), "big".to_string()))
    );
}

#[test]
fn table_format_is_looked_up_by_name() {
    assert_eq!(
        run(table_rules(Some("disks")), vm_table(), "x"),
        Err(ParseError::TableFormatNotFound("disks".to_string()))
    );
    assert_eq!(run(table_rules(None), vm_table(), "x"), Err(ParseError::MissingFormatName));
    let mut formats = vm_table();
    formats.push((
        "vms".to_string(),
        TableFormat { headers: vec!["Only".to_string()], delimiter: ",".to_string(), skip_lines: 0 },
    ));
    assert_eq!(
        run(table_rules(Some("vms")), formats, "one\n"),
        Ok(Value::Array(vec![object(vec![("Only", text("one"))])]))
    );
}

#[test]
fn unknown_mode_is_a_failure() {
    assert_eq!(run(rules("xml"), vec![], "x"), Err(ParseError::UnsupportedMode));
    assert_eq!(run(rules("Object"), vec![], "x"), Err(ParseError::UnsupportedMode));
    assert_eq!(run(rules(""), vec![], "x"), Err(ParseError::UnsupportedMode));
}

#[test]
fn properties_mode_maps_and_correlates() {
    let mut r = rules("properties");
    r.mappings = Some(vec![
        ("name".to_string(), MappingRule { key: Some("name".to_string()), transform: None }),
        (
            "memory".to_string(),
            MappingRule { key: Some("memory".to_string()), transform: Some("number".to_string()) },
        ),
        ("absent".to_string(), MappingRule { key: Some("nothing".to_string()), transform: None }),
        ("keyless".to_string(), MappingRule { key: None, transform: None }),
    ]);
    r.array_patterns = Some(vec![(
        "nics".to_string(),
        ArrayPattern {
            key_pattern: r"^nic(\d+)$".to_string(),
            fields: vec![
                ("type".to_string(), FieldRule::Simple("value".to_string())),
                ("ignored".to_string(), FieldRule::Simple("other".to_string())),
                (
                    "index".to_string(),
                    FieldRule::Complex {
                        key: None,
                        group: Some(1),
                        transform: Some("number".to_string()),
                        optional: None,
                    },
                ),
                (
                    "mac".to_string(),
                    FieldRule::Complex {
                        key: Some("macaddress\\1".to_string()),
                        group: None,
                        transform: Some("mac".to_string()),
                        optional: None,
                    },
                ),
                (
                    "bridge".to_string(),
                    FieldRule::Complex {
                        key: Some("bridgeadapter\\1".to_string()),
                        group: None,
                        transform: None,
                        optional: Some(true),
                    },
                ),
                (
                    "cable".to_string(),
                    FieldRule::Complex {
                        key: Some("cable\\1".to_string()),
                        group: None,
                        transform: None,
                        optional: None,
                    },
                ),
                (
                    "nothing".to_string(),
                    FieldRule::Complex { key: None, group: None, transform: None, optional: None },
                ),
                (
                    "beyond".to_string(),
                    FieldRule::Complex { key: None, group: Some(4), transform: None, optional: Some(true) },
                ),
            ],
        },
    )]);
    let output = "name=\"test-vm\"\n\nmemory=\"2048\"\n  nic1=\"nat\"  \nmacaddress1=\"0800AB\"\nnic2=\"bridged\"\nmacaddress2=\"0800CD\"\nbridgeadapter2=\"eth0\"\nnic3=\"none\"\nnot a property\nunquoted=value\n";
    let result = run(r, vec![], output).unwrap();
    assert_eq!(
        result,
        object(vec![
            (
                "nics",
                Value::Array(vec![
                    object(vec![
                        ("type", text("nat")),
                        ("index", number("1")),
                        ("mac", text("0800ab")),
                        ("bridge", Value::Null),
                    ]),
                    object(vec![
                        ("type", text("bridged")),
                        ("index", number("2")),
                        ("mac", text("0800cd")),
                        ("bridge", text("eth0")),
                    ]),
                    object(vec![("type", text("none")), ("index", number("3")), ("bridge", Value::Null)]),
                ])
            ),
            ("name", text("test-vm")),
            ("memory", number("2048")),
        ])
    );
}

#[test]
fn properties_mode_last_value_of_a_key_counts() {
    let mut r = rules("properties");
    r.mappings = Some(vec![("a".to_string(), MappingRule { key: Some("a".to_string()), transform: None })]);
    r.array_patterns = Some(vec![(
        "all".to_string(),
        ArrayPattern {
            key_pattern: r"^(\w)$".to_string(),
            fields: vec![
                ("key".to_string(), FieldRule::Complex { key: None, group: Some(1), transform: None, optional: None }),
                ("value".to_string(), FieldRule::Simple("value".to_string())),
            ],
        },
    )]);
    let result = run(r, vec![], "a=\"1\"\nb=\"2\"\na=\"3\"\n").unwrap();
    assert_eq!(
        result,
        object(vec![
            (
                "all",
                Value::Array(vec![
                    object(vec![("key", text("b")), ("value", text("2"))]),
                    object(vec![("key", text("a")), ("value", text("3"))]),
                ])
            ),
            ("a", text("3")),
        ])
    );
}

#[test]
fn properties_mode_with_its_own_line_pattern() {
    let mut r = rules("properties");
    r.property_pattern = Some(r"^(\w+):\s*(.*)$".to_string());
    r.mappings = Some(vec![("state".to_string(), MappingRule { key: Some("State".to_string()), transform: None })]);
    assert_eq!(run(r, vec![], "State: running\n"), Ok(object(vec![("state", text("running"))])));

    let mut two_groups_needed = rules("properties");
    two_groups_needed.property_pattern = Some(r"^(\w+)=.*$".to_string());
    two_groups_needed.mappings =
        Some(vec![("a".to_string(), MappingRule { key: Some("a".to_string()), transform: None })]);
    assert_eq!(run(two_groups_needed, vec![], "a=1\n"), Ok(object(vec![])));

    let mut group_may_be_missing = rules("properties");
    group_may_be_missing.property_pattern = Some(r"^(\w+)(?:=(.*))?$".to_string());
    group_may_be_missing.mappings = Some(vec![
        ("a".to_string(), MappingRule { key: Some("a".to_string()), transform: None }),
        ("b".to_string(), MappingRule { key: Some("b".to_string()), transform: None }),
    ]);
    assert_eq!(run(group_may_be_missing, vec![], "a\nb=2\n"), Ok(object(vec![("b", text("2"))])));
}

#[test]
fn properties_mode_key_pattern_without_a_group_leaves_the_template() {
    let mut r = rules("properties");
    r.array_patterns = Some(vec![(
        "disks".to_string(),
        ArrayPattern {
            key_pattern: r"^disk\d$".to_string(),
            fields: vec![
                (
                    "shared".to_string(),
                    FieldRule::Complex { key: Some("controller".to_string()), group: None, transform: None, optional: None },
                ),
                (
                    "own".to_string(),
                    FieldRule::Complex { key: Some("size\\1".to_string()), group: None, transform: None, optional: Some(true) },
                ),
            ],
        },
    )]);
    assert_eq!(
        run(r, vec![], "disk0=\"a\"\ncontroller=\"sata\"\nsize0=\"10\"\n"),
        Ok(object(vec![(
            "disks",
            Value::Array(vec![object(vec![("shared", text("sata")), ("own", Value::Null)])])
        )]))
    );
}

#[test]
fn properties_mode_failures() {
    let mut r = rules("properties");
    r.property_pattern = Some("(".to_string());
    assert_eq!(run(r, vec![], ""), Err(ParseError::RegexCompileError("(".to_string())));

    let mut r = rules("properties");
    r.array_patterns = Some(vec![(
        "x".to_string(),
        ArrayPattern { key_pattern: "[".to_string(), fields: vec![] },
    )]);
    assert_eq!(run(r, vec![], ""), Err(ParseError::RegexCompileError("[".to_string())));

    let mut r = rules("properties");
    r.mappings = Some(vec![(
        "on".to_string(),
        MappingRule { key: Some("on".to_string()), transform: Some("boolean".to_string()) },
    )]);
    assert_eq!(
        run(r, vec![], "on=\"yes\"\n"),
        Err(ParseError::ValueConversionError("boolean".to_string(), "yes".to_string()))
    );
    let mut r = rules("properties");
    r.mappings = Some(vec![(
        "on".to_string(),
        MappingRule { key: Some("on".to_string()), transform: Some("boolean".to_string()) },
    )]);
    assert_eq!(run(r, vec![], "on=\"true\"\n"), Ok(object(vec![("on", Value::Bool(true))])));
}

#[test]
fn properties_mode_without_rules_is_the_empty_object() {
    assert_eq!(run(rules("properties"), vec![], "a=\"1\"\n"), Ok(object(vec![])));
}

#[test]
fn legacy_exit_code_comes_first_whatever_the_text() {
    let action = legacy(Some(0), None);
    let parser = OutputParser::new(&action, vec![]);
    let expected = object(vec![
        (
            "error",
            text("Legacy CPI action does not support output parsing via API. Success/failure is determined by exit code only."),
        ),
        ("exit_code_required", Value::Integer(0)),
    ]);
    assert_eq!(parser.parse("Some output", &action), Ok(expected));
    let first = parser.parse("", &action).unwrap();
    let second = parser.parse("entirely other text\n", &action).unwrap();
    assert_eq!(first, second);
    assert_eq!(first.get("exit_code_required"), Some(&Value::Integer(0)));

    let both = legacy(Some(-3), Some("grep x"));
    let parser = OutputParser::new(&both, vec![]);
    let result = parser.parse("out", &both).unwrap();
    assert_eq!(result.get("exit_code_required"), Some(&Value::Integer(-3)));
    assert_eq!(result.get("grep_command"), None);
}

#[test]
fn legacy_grep_directive_and_raw_output() {
    let action = legacy(None, Some("grep -A 3 'UUID:'"));
    assert_eq!(
        diagnose(&action, "out"),
        object(vec![
            (
                "error",
                text("Legacy CPI action uses grep-based output parsing which is not supported via API. Please update to new parse_rules format."),
            ),
            ("grep_command", text("grep -A 3 'UUID:'")),
        ])
    );
    let action = legacy(None, None);
    assert_eq!(
        diagnose(&action, "VM Created"),
        object(vec![
            ("error", text("Legacy CPI action does not support output parsing via API.")),
            ("raw_output", text("VM Created")),
        ])
    );
}

#[test]
fn a_parser_without_rules_reports_on_any_action() {
    let built_for = legacy(None, None);
    let parser = OutputParser::new(&built_for, vec![]);
    let other = modern(rules("object"));
    let result = parser.parse("text", &other).unwrap();
    assert_eq!(result.get("raw_output"), Some(&text("text")));
}

#[test]
fn failure_messages() {
    assert_eq!(ParseError::UnsupportedMode.message(), "Unsupported parse type");
    assert_eq!(
        ParseError::MissingRequiredField("name".to_string()).message(),
        "Required group not found for field name"
    );
    assert_eq!(
        ParseError::RegexCompileError("(".to_string()).message(),
        "Invalid regular expression: ("
    );
    assert_eq!(
        ParseError::ValueConversionError("number".to_string(), "x".to_string()).message(),
        "Cannot convert 'x' to number"
    );
    assert_eq!(
        ParseError::TableFormatNotFound("vms".to_string()).message(),
        "Table format 'vms' not found"
    );
    assert_eq!(ParseError::MissingFormatName.message(), "Format type required for table parsing");
}

fn numbers_are_literals(value: &Value) -> bool {
    match value {
        Value::Number(literal) => {
            is_decimal_number(literal)
                && !is_not_finite(literal)
                && literal.parse::<f64>().map_or(false, |n| !n.is_nan())
        }
        Value::Array(items) => items.iter().all(numbers_are_literals),
        Value::Object(entries) => entries.iter().all(|e| numbers_are_literals(&e.1)),
        _ => true,
    }
}

#[test]
fn numbers_in_results_are_decimal_literals() {
    let mut size = pattern(r"size=(\S+)");
    size.transform = Some("number".to_string());
    let mut sizes = pattern(r"size=(\S+)");
    sizes.multi_match = Some(true);
    sizes.object = Some(vec![(
        "n".to_string(),
        ObjectRule { group: 1, transform: Some("number".to_string()), optional: None },
    )]);
    let result = run(
        object_rules(vec![("first", size), ("all", sizes)]),
        vec![],
        "size=1 size=-2.5e3 size=.5 size=inf size=NaN",
    )
    .unwrap();
    assert!(numbers_are_literals(&result));
    assert_eq!(result.get("first"), Some(&number("1")));
    assert_eq!(
        result.get("all"),
        Some(&Value::Array(vec![
            object(vec![("n", number("1"))]),
            object(vec![("n", number("-2.5e3"))]),
            object(vec![("n", number(".5"))]),
            object(vec![("n", Value::Null)]),
            object(vec![("n", Value::Null)]),
        ]))
    );
    let action = legacy(Some(7), None);
    assert!(numbers_are_literals(&diagnose(&action, "text")));
}
