use rigup::{
    build_flake_ref, complete_flake_ref, display_riglet, flake_root_path, get_system,
    last_rig_or_default, parse_flake_ref, starts_with, RenderOptions, RigletMeta,
};

fn pair(a: &str, b: &str) -> (String, String) {
    (a.to_string(), b.to_string())
}

#[test]
fn flake_refs_split_at_first_hash() {
    assert_eq!(parse_flake_ref(None), pair(".", "default"));
    assert_eq!(parse_flake_ref(Some(".#myrig")), pair(".", "myrig"));
    assert_eq!(parse_flake_ref(Some("github:foo/bar")), pair("github:foo/bar", "default"));
    assert_eq!(parse_flake_ref(Some("github:foo/bar#myrig")), pair("github:foo/bar", "myrig"));
    assert_eq!(parse_flake_ref(Some("example-rig")), pair("example-rig", "default"));
    assert_eq!(parse_flake_ref(Some("a#b#c")), pair("a", "b#c"));
}

#[test]
fn system_names_follow_nix() {
    assert_eq!(get_system("x86_64", "linux"), "x86_64-linux");
    assert_eq!(get_system("aarch64", "macos"), "aarch64-darwin");
}

#[test]
fn component_references() {
    assert_eq!(
        build_flake_ref("git+file:/src", "dev", "x86_64-linux", "entrypoint"),
        "git+file:/src#rigs.x86_64-linux.dev.entrypoint"
    );
}

#[test]
fn completion_candidates() {
    let rigs = vec!["default".to_string(), "dev".to_string(), "prod".to_string()];
    assert_eq!(complete_flake_ref(".#d", &rigs), vec![".#default", ".#dev"]);
    assert_eq!(complete_flake_ref(".#", &vec![]), vec![".#default"]);
    assert_eq!(complete_flake_ref(".#zz", &rigs), Vec::<String>::new());
    assert_eq!(complete_flake_ref("", &rigs), vec![".#default"]);
    assert_eq!(complete_flake_ref(".", &rigs), vec![".#default"]);
    assert_eq!(complete_flake_ref("github:x", &rigs), Vec::<String>::new());
    assert!(starts_with("abc", "ab"));
    assert!(!starts_with("a", "ab"));
}

#[test]
fn flake_roots_and_remembered_rig() {
    assert_eq!(flake_root_path("git+file:///home/u/p"), "/home/u/p");
    assert_eq!(flake_root_path("path:/tmp/x"), "/tmp/x");
    assert_eq!(flake_root_path("github:o/r"), "github:o/r");
    assert_eq!(last_rig_or_default(""), "default");
    assert_eq!(last_rig_or_default("dev"), "dev");
}

#[test]
fn riglet_display_with_details() {
    let meta = RigletMeta {
        description: "Helps.".to_string(),
        keywords: vec!["a".to_string(), "b".to_string()],
        intent: "tool".to_string(),
        status: "draft".to_string(),
        disclosure: "none".to_string(),
        broken: false,
        version: "2".to_string(),
        when_to_use: vec!["often".to_string()],
        command_names: vec!["x".to_string(), "y".to_string()],
        entrypoint: Some("go".to_string()),
    };
    let mut out = vec!["before".to_string()];
    display_riglet(&mut out, "n", &meta, " │ ", false, &RenderOptions { detailed: true, show_descriptions: true, terminal_width: 80 });
    assert_eq!(
        out,
        vec![
            "before".to_string(),
            " │  ├─ \u{1b}[36mn\u{1b}[39m (2) \u{1b}[34mtool\u{1b}[39m \u{1b}[35mentrypoint\u{1b}[39m \u{1b}[31mdraft\u{1b}[39m \u{1b}[32mundisclosed\u{1b}[39m".to_string(),
            " │  │   \u{1b}[1mHelps.\u{1b}[0m".to_string(),
            " │  │   \u{1b}[3m\u{1b}[90ma, b\u{1b}[39m\u{1b}[0m".to_string(),
            " │  │   Provides: x, y".to_string(),
            " │  │   Entrypoint: \u{1b}[3mgo\u{1b}[0m".to_string(),
            " │  │   When to use:".to_string(),
            " │  │    \u{1b}[35m•\u{1b}[39m often".to_string(),
        ]
    );
}
