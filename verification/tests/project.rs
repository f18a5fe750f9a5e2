use savvagent::project::{layered_prompt, split_front_matter, split_project_text, system_prompt};

#[test]
fn no_file_no_override_yields_none() {
    assert!(system_prompt(None, None).is_none());
}

#[test]
fn override_only() {
    let s = system_prompt(Some("base prompt"), None).unwrap();
    assert_eq!(s, "base prompt");
}

#[test]
fn merges_override_and_project_body() {
    let s = system_prompt(Some("base"), Some("use snake_case.")).unwrap();
    assert!(s.starts_with("base"));
    assert!(s.contains("use snake_case."));
    assert_eq!(s, "base\n\n# Project context (from SAVVAGENT.md)\n\nuse snake_case.");
}

#[test]
fn project_body_only() {
    let s = system_prompt(None, Some("ctx")).unwrap();
    assert_eq!(s, "# Project context (from SAVVAGENT.md)\n\nctx");
}

#[test]
fn no_front_matter_treats_whole_file_as_body() {
    let parsed = split_project_text("just a body, no delimiters\n");
    assert_eq!(parsed.body.as_deref(), Some("just a body, no delimiters"));
    assert!(parsed.front_matter.is_none());
}

#[test]
fn front_matter_only_no_body() {
    let parsed = split_project_text("---\npermissions:\n  allow: []\n---\n");
    assert!(parsed.body.is_none());
    assert_eq!(parsed.front_matter.as_deref(), Some("permissions:\n  allow: []"));
}

#[test]
fn front_matter_is_split_from_body() {
    let parsed = split_project_text("---\npermissions:\n  allow: []\n---\nuse snake_case.");
    assert_eq!(parsed.body.as_deref(), Some("use snake_case."));
    assert!(!parsed.body.as_deref().unwrap().contains("---"));
}

#[test]
fn unterminated_front_matter_is_not_front_matter() {
    assert!(split_front_matter("---\nno closing line").is_none());
    assert!(split_front_matter("text first\n---\nx\n---\n").is_none());
}

#[test]
fn layered_all_three_renders_three_sections() {
    let s = layered_prompt(Some("DEFAULT"), Some("OVERRIDE"), Some("BODY")).unwrap();
    assert!(s.contains("# Savvagent default prompt\n\nDEFAULT"));
    assert!(s.contains("# Host override\n\nOVERRIDE"));
    assert!(s.contains("# Project context (from SAVVAGENT.md)\n\nBODY"));
    let i_default = s.find("DEFAULT").unwrap();
    let i_override = s.find("OVERRIDE").unwrap();
    let i_body = s.find("BODY").unwrap();
    assert!(i_default < i_override && i_override < i_body, "{}", s);
}

#[test]
fn layered_default_only() {
    let s = layered_prompt(Some("D"), None, None).unwrap();
    assert!(s.starts_with("# Savvagent default prompt"));
    assert!(s.contains("D"));
    assert!(!s.contains("# Host override"));
    assert!(!s.contains("# Project context"));
}

#[test]
fn layered_override_only() {
    let s = layered_prompt(None, Some("O"), None).unwrap();
    assert!(s.starts_with("# Host override"));
    assert!(s.contains("O"));
}

#[test]
fn layered_body_only() {
    let s = layered_prompt(None, None, Some("B")).unwrap();
    assert!(s.starts_with("# Project context (from SAVVAGENT.md)"));
    assert!(s.contains("B"));
}

#[test]
fn layered_none_returns_none() {
    assert!(layered_prompt(None, None, None).is_none());
}

#[test]
fn layered_sections_use_h1_headings() {
    let s = layered_prompt(Some("a"), Some("b"), Some("c")).unwrap();
    for h in &[
        "# Savvagent default prompt",
        "# Host override",
        "# Project context (from SAVVAGENT.md)",
    ] {
        assert!(s.contains(h), "missing heading {h} in:\n{s}");
    }
}

#[test]
fn layered_empty_string_layer_is_skipped() {
    assert_eq!(
        layered_prompt(Some(""), Some(""), Some("")),
        layered_prompt(None, None, None),
    );
    let s = layered_prompt(Some(""), Some("O"), Some("")).unwrap();
    assert!(s.starts_with("# Host override"));
    assert!(!s.contains("# Savvagent default prompt"));
    assert!(!s.contains("# Project context"));
}

#[test]
fn layered_whitespace_only_layer_is_skipped() {
    let s = layered_prompt(Some("   \n\t  "), Some("O"), Some("\n\n")).unwrap();
    assert!(s.starts_with("# Host override"));
    assert!(!s.contains("# Savvagent default prompt"));
    assert!(!s.contains("# Project context"));
}

#[test]
fn layered_all_layers_whitespace_returns_none() {
    assert!(layered_prompt(Some("   "), Some("\n\n"), Some("\t")).is_none());
}

#[test]
fn layered_preserves_code_fences_in_project_body() {
    let body = "```rust\nfn main() {}\n```";
    let s = layered_prompt(None, None, Some(body)).unwrap();
    assert!(s.contains(body), "code fence altered:\n{s}");
}

#[test]
fn layered_does_not_strip_leading_or_trailing_whitespace_of_non_empty_content() {
    let s = layered_prompt(Some("  hello  "), None, None).unwrap();
    assert!(s.contains("  hello  "), "leading/trailing whitespace lost: {s}");
}

#[test]
fn layered_exact_text_of_two_sections() {
    let s = layered_prompt(Some("A"), None, Some("C")).unwrap();
    assert_eq!(s, "# Savvagent default prompt\n\nA\n\n# Project context (from SAVVAGENT.md)\n\nC");
}
