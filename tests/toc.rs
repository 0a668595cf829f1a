use rigup::{collect_headings, decimal_string, extract_toc, format_toc, offset_to_line_number, MdEvent, TocEntry};

fn pairs(entries: &[TocEntry]) -> Vec<(usize, String)> {
    entries.iter().map(|e| (e.line, e.text.clone())).collect()
}

#[test]
fn test_offset_to_line_number() {
    let content = "line1\nline2\nline3\n";
    assert_eq!(offset_to_line_number(content, 0), 1);
    assert_eq!(offset_to_line_number(content, 6), 2);
    assert_eq!(offset_to_line_number(content, 12), 3);
}

#[test]
fn test_extract_toc() {
    let markdown = r#"# Title
Some text
## Section 1
More text
### Subsection 1.1
## Section 2
"#;
    let entries = extract_toc(markdown, None);
    assert_eq!(
        pairs(&entries),
        vec![
            (1, "# Title".to_string()),
            (3, "## Section 1".to_string()),
            (5, "### Subsection 1.1".to_string()),
            (6, "## Section 2".to_string()),
        ]
    );
}

#[test]
fn test_extract_toc_with_max_level() {
    let markdown = "# Title\n## Section\n### Subsection\n";
    let entries = extract_toc(markdown, Some(2));
    assert_eq!(
        pairs(&entries),
        vec![(1, "# Title".to_string()), (2, "## Section".to_string())]
    );
}

#[test]
fn offset_past_end_counts_whole_text() {
    assert_eq!(offset_to_line_number("a\nb\n", 100), 3);
    assert_eq!(offset_to_line_number("", 0), 1);
}

#[test]
fn heading_with_code_and_break_is_joined() {
    let entries = extract_toc("Intro\n\n## Use `cargo`\n", None);
    assert_eq!(pairs(&entries), vec![(3, "## Use cargo".to_string())]);
}

#[test]
fn collect_headings_reads_given_events() {
    let content = "x\ny\nz";
    let events = vec![
        MdEvent::Text("ignored".to_string()),
        MdEvent::HeadingStart(3, 4),
        MdEvent::Text("Deep".to_string()),
        MdEvent::Break,
        MdEvent::Code("dive".to_string()),
        MdEvent::HeadingEnd,
        MdEvent::HeadingStart(4, 0),
        MdEvent::Text("Too deep".to_string()),
        MdEvent::HeadingEnd,
        MdEvent::Other,
    ];
    let entries = collect_headings(content, &events, Some(3));
    assert_eq!(pairs(&entries), vec![(3, "### Deep dive".to_string())]);
}

#[test]
fn toc_lines_are_numbered() {
    let entries = vec![
        TocEntry { line: 7, text: "# A".to_string() },
        TocEntry { line: 120, text: "## B".to_string() },
    ];
    assert_eq!(format_toc(&entries), vec!["Line 7: # A".to_string(), "Line 120: ## B".to_string()]);
    assert_eq!(decimal_string(0), "0");
    assert_eq!(decimal_string(9051), "9051");
}
