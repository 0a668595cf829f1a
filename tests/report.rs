use rigup::{
    render_inputs, render_report, rig_leaf, riglet_leaf, sorted_name_list, Emphasis, InputData,
    RenderOptions, RigMeta, RigletMeta,
};

fn meta(version: &str, intent: &str, status: &str, disclosure: &str, broken: bool, description: &str) -> RigletMeta {
    RigletMeta {
        description: description.to_string(),
        keywords: vec![],
        intent: intent.to_string(),
        status: status.to_string(),
        disclosure: disclosure.to_string(),
        broken,
        version: version.to_string(),
        when_to_use: vec![],
        command_names: vec![],
        entrypoint: None,
    }
}

fn sample() -> Vec<(String, InputData)> {
    let zed = || meta("0.2", "workflow", "experimental", "lazy", true, "Does things.");
    let abc = meta("1.0", "base", "stable", "none", false, "");
    vec![
        ("zzz-empty".to_string(), InputData { riglets: vec![], rigs: vec![] }),
        (
            "self".to_string(),
            InputData {
                riglets: vec![("zed".to_string(), zed()), ("abc".to_string(), abc)],
                rigs: vec![(
                    "default".to_string(),
                    RigMeta { riglets: vec![("zed".to_string(), zed())], entrypoint: Some("agentsh".to_string()) },
                )],
            },
        ),
    ]
}

#[test]
fn report_lists_sections_in_order() {
    let opts = RenderOptions { detailed: false, show_descriptions: true, terminal_width: 80 };
    let lines = render_inputs(&sample(), &opts);
    assert_eq!(
        lines,
        vec![
            "📦 \u{1b}[1m\u{1b}[94mself\u{1b}[39m\u{1b}[0m".to_string(),
            " ├─🧩 \u{1b}[1mRiglets\u{1b}[0m".to_string(),
            " │  ├─ \u{1b}[36mabc\u{1b}[39m (1.0) \u{1b}[34mbase\u{1b}[39m".to_string(),
            " │  └─ \u{1b}[36mzed\u{1b}[39m (0.2) \u{1b}[34mworkflow\u{1b}[39m \u{1b}[33mexperimental\u{1b}[39m \u{1b}[1m\u{1b}[31mBROKEN\u{1b}[39m\u{1b}[0m".to_string(),
            " │      \u{1b}[1mDoes things.\u{1b}[0m".to_string(),
            " └─📟 \u{1b}[1mRigs\u{1b}[0m".to_string(),
            "    └─ \u{1b}[32mdefault\u{1b}[39m entrypoint: \u{1b}[35magentsh\u{1b}[39m".to_string(),
            "".to_string(),
        ]
    );
    let buffer = render_report(&sample(), &opts);
    assert_eq!(buffer, lines.iter().map(|l| format!("{}\n", l)).collect::<String>());
}

#[test]
fn detailed_report_lists_rig_members() {
    let opts = RenderOptions { detailed: true, show_descriptions: false, terminal_width: 80 };
    let lines = render_inputs(&sample(), &opts);
    assert_eq!(lines.len(), 8);
    assert_eq!(lines[6], "        \u{1b}[3m\u{1b}[90mzed\u{1b}[39m\u{1b}[0m");
}

#[test]
fn input_without_entries_is_silent() {
    let opts = RenderOptions { detailed: true, show_descriptions: true, terminal_width: 80 };
    let only_empty = vec![("x".to_string(), InputData { riglets: vec![], rigs: vec![] })];
    assert!(render_inputs(&only_empty, &opts).is_empty());
    let rigs_only = vec![(
        "x".to_string(),
        InputData { riglets: vec![], rigs: vec![("r".to_string(), RigMeta { riglets: vec![], entrypoint: None })] },
    )];
    let lines = render_inputs(&rigs_only, &opts);
    assert_eq!(lines[1], " └─📟 \u{1b}[1mRigs\u{1b}[0m");
    assert_eq!(lines.len(), 4);
}

#[test]
fn riglet_badge_rules() {
    let mut m = meta("3", "tool", "deprecated", "none", false, "d");
    m.entrypoint = Some("go".to_string());
    m.keywords = vec!["k1".to_string(), "k2".to_string()];
    m.command_names = vec!["c".to_string()];
    m.when_to_use = vec!["w".to_string()];
    let leaf = riglet_leaf("n", &m);
    let badges: Vec<(String, Emphasis)> = leaf.badges.iter().map(|b| (b.text.clone(), b.emphasis)).collect();
    assert_eq!(
        badges,
        vec![
            ("(3)".to_string(), Emphasis::Plain),
            ("tool".to_string(), Emphasis::Info),
            ("entrypoint".to_string(), Emphasis::Accent),
            ("deprecated".to_string(), Emphasis::Error),
            ("undisclosed".to_string(), Emphasis::Positive),
        ]
    );
    assert_eq!(leaf.description, Some("d".to_string()));
    assert_eq!(leaf.detail_blocks.len(), 4);

    let other = riglet_leaf("n", &meta("1", "base", "example", "eager", false, ""));
    let texts: Vec<String> = other.badges.iter().map(|b| b.text.clone()).collect();
    assert_eq!(texts, vec!["(1)", "base", "example", "eager"]);
    assert_eq!(other.badges[2].emphasis, Emphasis::Highlight);
    assert!(other.description.is_none());
    assert!(other.detail_blocks.is_empty());
}

#[test]
fn rig_leaf_sorts_members() {
    let m = || meta("1", "base", "stable", "lazy", false, "");
    let rig = RigMeta {
        riglets: vec![("b".to_string(), m()), ("c".to_string(), m()), ("a".to_string(), m())],
        entrypoint: None,
    };
    assert_eq!(sorted_name_list(&rig.riglets), vec!["a", "b", "c"]);
    let leaf = rig_leaf("r", &rig);
    assert!(leaf.badges.is_empty());
    assert_eq!(leaf.label_emphasis, Emphasis::Positive);
    assert_eq!(leaf.detail_blocks.len(), 1);
}
