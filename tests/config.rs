use rigup::{
    config_leaf, format_value, render_inspection, render_lines, same_value, ConfigOption, Emphasis,
    JsonValue, MetadataNode, RenderOptions, RigletMeta,
};

fn num(n: &str) -> JsonValue {
    JsonValue::Number(n.to_string())
}

fn s(t: &str) -> JsonValue {
    JsonValue::Str(t.to_string())
}

fn option(ty: &str, value: Option<JsonValue>, default: Option<JsonValue>) -> ConfigOption {
    ConfigOption { option_type: ty.to_string(), value, default, description: None, enum_values: None }
}

#[test]
fn values_are_written_compactly() {
    assert_eq!(format_value(&JsonValue::Null), "null");
    assert_eq!(format_value(&JsonValue::Bool(true)), "true");
    assert_eq!(format_value(&num("1.5")), "1.5");
    assert_eq!(format_value(&s("hi")), "\"hi\"");
    assert_eq!(format_value(&JsonValue::Array(vec![num("1"), s("a"), JsonValue::Bool(false)])), "[1 \"a\" false]");
    assert_eq!(format_value(&JsonValue::Array(vec![num("1"), num("2"), num("3"), num("4")])), "[...4 items...]");
    assert_eq!(
        format_value(&JsonValue::Object(vec![("a".to_string(), num("1")), ("b".to_string(), JsonValue::Array(vec![]))])),
        "{ a = 1; b = []; }"
    );
    let big = (0..12).map(|i| (format!("k{}", i), JsonValue::Null)).collect();
    assert_eq!(format_value(&JsonValue::Object(big)), "{...12 items...}");
}

#[test]
fn values_compare_structurally() {
    let a = JsonValue::Object(vec![("x".to_string(), JsonValue::Array(vec![num("1"), s("y")]))]);
    let b = JsonValue::Object(vec![("x".to_string(), JsonValue::Array(vec![num("1"), s("y")]))]);
    let c = JsonValue::Object(vec![("x".to_string(), JsonValue::Array(vec![num("1"), s("z")]))]);
    assert!(same_value(&a, &b));
    assert!(!same_value(&a, &c));
    assert!(!same_value(&num("1"), &s("1")));
    assert!(same_value(&JsonValue::Null, &JsonValue::Null));
}

#[test]
fn option_badges_follow_value_and_default() {
    let texts = |o: &ConfigOption| -> Vec<(String, Emphasis)> {
        config_leaf("opt", o).badges.iter().map(|b| (b.text.clone(), b.emphasis)).collect()
    };
    assert_eq!(
        texts(&option("int", Some(num("3")), Some(num("3")))),
        vec![("=".to_string(), Emphasis::Plain), ("3".to_string(), Emphasis::Info), (": int".to_string(), Emphasis::Faint)]
    );
    assert_eq!(
        texts(&option("int", Some(num("4")), Some(num("3")))),
        vec![("=".to_string(), Emphasis::Plain), ("4".to_string(), Emphasis::Warning), (": int, def. 3".to_string(), Emphasis::Faint)]
    );
    assert_eq!(texts(&option("str", Some(s("a")), None))[1], ("\"a\"".to_string(), Emphasis::Warning));
    assert_eq!(texts(&option("str", None, None))[1], ("null".to_string(), Emphasis::Unset));
    assert_eq!(texts(&option("str", None, Some(s("a"))))[1], ("null".to_string(), Emphasis::Missing));
}

#[test]
fn config_tree_renders_nested_groups() {
    let mut level = option("enum", Some(s("low")), Some(s("low")));
    level.description = Some("How loud".to_string());
    level.enum_values = Some(vec![s("low"), s("high")]);
    let tree = MetadataNode::Branch(vec![
        ("z".to_string(), MetadataNode::Leaf(config_leaf("z", &option("bool", Some(JsonValue::Bool(true)), None)))),
        ("audio".to_string(), MetadataNode::Branch(vec![("level".to_string(), MetadataNode::Leaf(config_leaf("level", &level)))])),
    ]);
    let lines = render_lines(&tree, &RenderOptions { detailed: true, show_descriptions: true, terminal_width: 80 });
    assert_eq!(
        lines,
        vec![
            " ├─┓ \u{1b}[3maudio\u{1b}[0m".to_string(),
            " │ └─ \u{1b}[36mlevel\u{1b}[39m = \u{1b}[34m\"low\"\u{1b}[39m \u{1b}[90m: enum\u{1b}[39m".to_string(),
            " │     \u{1b}[1mHow loud\u{1b}[0m".to_string(),
            " │     \"low\", \"high\"".to_string(),
            " └─ \u{1b}[36mz\u{1b}[39m = \u{1b}[33mtrue\u{1b}[39m \u{1b}[90m: bool\u{1b}[39m".to_string(),
        ]
    );
}

#[test]
fn inspection_lists_riglets_then_configuration() {
    let meta = RigletMeta {
        description: String::new(),
        keywords: vec![],
        intent: "base".to_string(),
        status: "stable".to_string(),
        disclosure: "lazy".to_string(),
        broken: false,
        version: "1".to_string(),
        when_to_use: vec![],
        command_names: vec![],
        entrypoint: None,
    };
    let options = vec![("x".to_string(), MetadataNode::Leaf(config_leaf("x", &option("int", None, None))))];
    let opts = RenderOptions { detailed: false, show_descriptions: true, terminal_width: 80 };
    let lines = render_inspection("dev", &Some("sh".to_string()), &vec![("r".to_string(), meta)], &options, &opts);
    assert_eq!(
        lines,
        vec![
            "📟 \u{1b}[1m\u{1b}[94mdev\u{1b}[39m\u{1b}[0m (entrypoint: \u{1b}[35msh\u{1b}[39m)".to_string(),
            " ├─🧩 \u{1b}[1mRiglets\u{1b}[0m".to_string(),
            " │  └─ \u{1b}[36mr\u{1b}[39m (1) \u{1b}[34mbase\u{1b}[39m".to_string(),
            " └─⚙\u{fe0f}  \u{1b}[1mConfiguration\u{1b}[0m".to_string(),
            "    └─ \u{1b}[36mx\u{1b}[39m = \u{1b}[3m\u{1b}[34mnull\u{1b}[39m\u{1b}[0m \u{1b}[90m: int\u{1b}[39m".to_string(),
        ]
    );
    let bare = render_inspection("dev", &None, &vec![], &vec![], &opts);
    assert_eq!(bare, vec!["📟 \u{1b}[1m\u{1b}[94mdev\u{1b}[39m\u{1b}[0m ".to_string()]);
}
