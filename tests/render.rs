use rigup::{
    branch_glyph, child_prefix, choose_delivery, continuation, emphasize, group_continuation,
    item_prefix, join, key_lt, pager_command, render, render_lines, same_text, sorted_indices,
    text_width, wrap_lines, wrap_with_prefix, Badge, Delivery, DetailBlock, Emphasis, LeafRecord,
    MetadataNode, RenderOptions, MIN_TEXT_WIDTH,
};

fn badge(text: &str, emphasis: Emphasis) -> Badge {
    Badge { text: text.to_string(), emphasis }
}

fn leaf(label: &str, badges: Vec<Badge>, description: Option<&str>, blocks: Vec<DetailBlock>) -> MetadataNode {
    MetadataNode::Leaf(LeafRecord {
        label: label.to_string(),
        label_emphasis: Emphasis::Highlight,
        badges,
        description: description.map(|d| d.to_string()),
        detail_blocks: blocks,
    })
}

fn opts(detailed: bool, show_descriptions: bool, terminal_width: usize) -> RenderOptions {
    RenderOptions { detailed, show_descriptions, terminal_width }
}

fn strs(v: &[&str]) -> Vec<String> {
    v.iter().map(|s| s.to_string()).collect()
}

#[test]
fn two_leaves_headers_only() {
    let tree = MetadataNode::Branch(vec![
        ("beta".to_string(), leaf("beta", vec![badge("v2.0", Emphasis::Plain), badge("BROKEN", Emphasis::Alert)], Some("second"), vec![])),
        ("alpha".to_string(), leaf("alpha", vec![badge("v1.0", Emphasis::Plain)], Some("first"), vec![])),
    ]);
    let lines = render_lines(&tree, &opts(false, false, 80));
    assert_eq!(
        lines,
        vec![
            " ├─ \u{1b}[36malpha\u{1b}[39m v1.0".to_string(),
            " └─ \u{1b}[36mbeta\u{1b}[39m v2.0 \u{1b}[1m\u{1b}[31mBROKEN\u{1b}[39m\u{1b}[0m".to_string(),
        ]
    );
}

#[test]
fn long_description_wraps_to_width() {
    let sentence = "The quick brown fox jumps over the lazy dog while the cat watches from the fence and the bird sings in the tree above them all on a warm sunny afternoon in the middle of the long summer days";
    let description = format!("{} {}", sentence, "x".repeat(200 - sentence.len() - 1));
    assert_eq!(description.len(), 200);
    let tree = MetadataNode::Branch(vec![("only".to_string(), leaf("only", vec![], Some(&description), vec![]))]);
    let lines = render_lines(&tree, &opts(false, true, 40));
    assert!(lines.len() > 2);
    let prefix = "     ";
    let width = std::cmp::max(40usize.saturating_sub(prefix.len()), 40);
    for line in &lines[1..] {
        assert!(line.starts_with(prefix));
        let body = &line[prefix.len()..];
        assert!(body.starts_with("\u{1b}[1m") && body.ends_with("\u{1b}[0m"));
        let text = &body[4..body.len() - 4];
        assert!(text.chars().count() <= width || !text.contains(' '));
    }
}

#[test]
fn nested_last_leaf_prefix() {
    let inner = MetadataNode::Branch(vec![("x".to_string(), leaf("x", vec![], Some("deep"), vec![]))]);
    let tree = MetadataNode::Branch(vec![("g".to_string(), inner)]);
    let lines = render_lines(&tree, &opts(false, true, 80));
    let depth_two = format!("{}{}{}", group_continuation(true), continuation(true), "  ");
    assert_eq!(depth_two, "       ");
    assert_eq!(item_prefix(&child_prefix("", true), true), depth_two);
    assert_eq!(
        lines,
        vec![
            " └─┓ \u{1b}[3mg\u{1b}[0m".to_string(),
            "   └─ \u{1b}[36mx\u{1b}[39m".to_string(),
            format!("{}\u{1b}[1mdeep\u{1b}[0m", depth_two),
        ]
    );
}

#[test]
fn not_a_terminal_prints_directly() {
    assert_eq!(choose_delivery(false, true), Delivery::Direct);
    assert_eq!(choose_delivery(true, false), Delivery::Direct);
    assert_eq!(choose_delivery(true, true), Delivery::Pager);
    let (program, args) = pager_command();
    assert_eq!(program, "less");
    assert_eq!(args, strs(&["-RFX", "--mouse", "--wheel-lines=3"]));
}

#[test]
fn rendering_ignores_insertion_order() {
    let a = || leaf("a", vec![badge("1", Emphasis::Info)], Some("alpha text"), vec![]);
    let b = || leaf("b", vec![], None, vec![DetailBlock::TagList { items: strs(&["k1", "k2"]) }]);
    let t1 = MetadataNode::Branch(vec![("a".to_string(), a()), ("b".to_string(), b())]);
    let t2 = MetadataNode::Branch(vec![("b".to_string(), b()), ("a".to_string(), a())]);
    let o = opts(true, true, 60);
    assert_eq!(render(&t1, &o), render(&t2, &o));
    assert_eq!(render(&t1, &o), render(&t1, &o));
}

#[test]
fn siblings_appear_in_key_order() {
    let tree = MetadataNode::Branch(vec![
        ("zeta".to_string(), leaf("zeta", vec![], None, vec![])),
        ("Beta".to_string(), leaf("Beta", vec![], None, vec![])),
        ("alpha".to_string(), leaf("alpha", vec![], None, vec![])),
        ("alp".to_string(), leaf("alp", vec![], None, vec![])),
    ]);
    let lines = render_lines(&tree, &opts(false, false, 80));
    let labels: Vec<&str> = lines.iter().map(|l| l.split("\u{1b}[36m").nth(1).unwrap().split('\u{1b}').next().unwrap()).collect();
    assert_eq!(labels, vec!["Beta", "alp", "alpha", "zeta"]);
    assert!(lines[3].starts_with(" └─"));
}

#[test]
fn wrapped_lines_respect_width() {
    let text = "lorem ipsum dolor sit amet consectetur adipiscing elit sed do eiusmod tempor incididunt ut labore et dolore magna aliqua supercalifragilisticexpialidociouswordthatislongerthanfortycolumns end";
    let prefix = "  │    ";
    let lines = wrap_lines(text, prefix, 50);
    let avail = text_width(prefix, 50);
    assert_eq!(avail, 41);
    assert!(lines.len() > 3);
    for line in &lines {
        let seg = line.strip_prefix(prefix).unwrap();
        assert!(seg.chars().count() <= avail || !seg.contains(' '));
    }
    assert!(lines.iter().any(|l| l.ends_with("supercalifragilisticexpialidociouswordthatislongerthanfortycolumns")));
    let joined: Vec<String> = lines.iter().map(|l| l[prefix.len()..].to_string()).collect();
    assert_eq!(joined.join(" "), text);
}

#[test]
fn narrow_terminal_keeps_floor_width() {
    assert_eq!(text_width("abc", 10), MIN_TEXT_WIDTH);
    assert_eq!(text_width("", 100), 100);
    assert_eq!(text_width("│", 50), 47);
}

#[test]
fn empty_text_wraps_to_prefix_only() {
    assert_eq!(wrap_lines("", "> ", 80), vec!["> ".to_string()]);
    assert_eq!(wrap_with_prefix("", "> ", 80), "> ");
}

#[test]
fn wrap_with_prefix_joins_lines() {
    let text = "one two three four five six seven eight nine ten eleven twelve thirteen";
    let out = wrap_with_prefix(text, "* ", 42);
    assert_eq!(out, "* one two three four five six seven eight\n* nine ten eleven twelve thirteen");
}

#[test]
fn empty_group_writes_nothing() {
    let tree = MetadataNode::Branch(vec![
        ("empty".to_string(), MetadataNode::Branch(vec![])),
        ("a".to_string(), leaf("a", vec![], None, vec![])),
    ]);
    let lines = render_lines(&tree, &opts(true, true, 80));
    assert_eq!(lines, vec![" └─ \u{1b}[36ma\u{1b}[39m".to_string()]);
    assert!(render_lines(&MetadataNode::Branch(vec![]), &opts(true, true, 80)).is_empty());
    assert_eq!(render(&MetadataNode::Branch(vec![]), &opts(true, true, 80)), "");
}

#[test]
fn toggles_remove_only_their_lines() {
    let tree = MetadataNode::Branch(vec![(
        "a".to_string(),
        leaf(
            "a",
            vec![],
            Some("about a"),
            vec![DetailBlock::KeyValue { key: "Entrypoint".to_string(), value: "run-a".to_string() }],
        ),
    )]);
    let all = render_lines(&tree, &opts(true, true, 80));
    let header = " └─ \u{1b}[36ma\u{1b}[39m".to_string();
    let desc = "     \u{1b}[1mabout a\u{1b}[0m".to_string();
    let detail = "     Entrypoint: \u{1b}[3mrun-a\u{1b}[0m".to_string();
    assert_eq!(all, vec![header.clone(), desc.clone(), detail.clone()]);
    assert_eq!(render_lines(&tree, &opts(true, false, 80)), vec![header.clone(), detail]);
    assert_eq!(render_lines(&tree, &opts(false, true, 80)), vec![header.clone(), desc]);
    assert_eq!(render_lines(&tree, &opts(false, false, 80)), vec![header]);
}

#[test]
fn detail_blocks_render_in_order() {
    let tree = MetadataNode::Leaf(LeafRecord {
        label: "r".to_string(),
        label_emphasis: Emphasis::Plain,
        badges: vec![],
        description: None,
        detail_blocks: vec![
            DetailBlock::TagList { items: strs(&["x", "y"]) },
            DetailBlock::InlineList { title: "Provides".to_string(), items: strs(&["p", "q"]) },
            DetailBlock::BulletedList { title: "When to use".to_string(), items: strs(&["now"]) },
        ],
    });
    let lines = render_lines(&tree, &opts(true, true, 80));
    assert_eq!(
        lines,
        vec![
            " └─ r".to_string(),
            "     \u{1b}[3m\u{1b}[90mx, y\u{1b}[39m\u{1b}[0m".to_string(),
            "     Provides: p, q".to_string(),
            "     When to use:".to_string(),
            "      \u{1b}[35m•\u{1b}[39m now".to_string(),
        ]
    );
}

#[test]
fn bullet_continuation_aligns_under_text() {
    let item = "aaaa bbbb cccc dddd eeee ffff gggg hhhh iiii jjjj kkkk llll mmmm";
    let tree = MetadataNode::Leaf(LeafRecord {
        label: "r".to_string(),
        label_emphasis: Emphasis::Plain,
        badges: vec![],
        description: None,
        detail_blocks: vec![DetailBlock::BulletedList { title: "Use".to_string(), items: strs(&[item]) }],
    });
    let lines = render_lines(&tree, &opts(true, true, 40));
    assert_eq!(lines[2], "      \u{1b}[35m•\u{1b}[39m aaaa bbbb cccc dddd eeee ffff gggg hhhh");
    assert_eq!(lines[3], "        iiii jjjj kkkk llll mmmm");
}

#[test]
fn glyphs_and_prefixes() {
    assert_eq!(branch_glyph(true), "└─");
    assert_eq!(branch_glyph(false), "├─");
    assert_eq!(continuation(true), "   ");
    assert_eq!(continuation(false), " │ ");
    assert_eq!(group_continuation(false), " │");
    assert_eq!(item_prefix("ab", false), "ab │   ");
    assert_eq!(child_prefix("ab", true), "ab  ");
}

#[test]
fn emphasis_escape_sequences() {
    assert_eq!(emphasize("x", Emphasis::Plain), "x");
    assert_eq!(emphasize("x", Emphasis::Info), "\u{1b}[34mx\u{1b}[39m");
    assert_eq!(emphasize("x", Emphasis::Warning), "\u{1b}[33mx\u{1b}[39m");
    assert_eq!(emphasize("x", Emphasis::Error), "\u{1b}[31mx\u{1b}[39m");
    assert_eq!(emphasize("x", Emphasis::Positive), "\u{1b}[32mx\u{1b}[39m");
    assert_eq!(emphasize("x", Emphasis::Strong), "\u{1b}[1mx\u{1b}[0m");
    assert_eq!(emphasize("x", Emphasis::Slanted), "\u{1b}[3mx\u{1b}[0m");
    assert_eq!(emphasize("x", Emphasis::Title), "\u{1b}[1m\u{1b}[94mx\u{1b}[39m\u{1b}[0m");
}

#[test]
fn key_order_and_equality() {
    assert!(key_lt("a", "b"));
    assert!(key_lt("B", "a"));
    assert!(key_lt("ab", "abc"));
    assert!(!key_lt("abc", "abc"));
    assert!(key_lt("z", "é"));
    assert!(same_text("rig", "rig"));
    assert!(!same_text("rig", "rigs"));
    let entries = vec![("c".to_string(), 0), ("a".to_string(), 1), ("b".to_string(), 2)];
    assert_eq!(sorted_indices(&entries, &vec![true, true, true]), vec![1, 2, 0]);
    assert_eq!(sorted_indices(&entries, &vec![true, false, true]), vec![2, 0]);
    assert_eq!(join(&strs(&["a", "b", "c"]), ", "), "a, b, c");
    assert_eq!(join(&vec![], ", "), "");
}

#[test]
fn segments_get_prefix_and_emphasis() {
    let segs = strs(&["one", "two"]);
    assert_eq!(rigup::prefix_segments("> ", &segs), strs(&["> one", "> two"]));
    let mut out = strs(&["x"]);
    rigup::push_styled(&mut out, "  ", &segs, Emphasis::Strong);
    assert_eq!(out, strs(&["x", "  \u{1b}[1mone\u{1b}[0m", "  \u{1b}[1mtwo\u{1b}[0m"]));
}
