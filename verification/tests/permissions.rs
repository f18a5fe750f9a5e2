use savvagent::json::JsonValue;
use savvagent::permissions::{rules_from_permissions, short_args, ArgPattern, FrontMatterPermissions,
    PermissionDecision, PermissionPolicy, PermissionsToml, Rule, SerializableRule, ToolArgs, Verdict};

fn json_args(pairs: &[(&str, &str)]) -> JsonValue {
    let mut m = Vec::new();
    for (k, v) in pairs {
        m.push((k.to_string(), JsonValue::Str(v.to_string())));
    }
    JsonValue::Object(m)
}

fn args(pairs: &[(&str, &str)]) -> ToolArgs {
    ToolArgs::from_json(&json_args(pairs))
}

fn policy(front: Vec<Rule>, toml: Vec<Rule>) -> PermissionPolicy {
    PermissionPolicy::from_parts("/home/me/proj".into(), front, None, toml)
}

fn empty() -> PermissionPolicy {
    policy(Vec::new(), Vec::new())
}

fn rule(tool: &str, pattern: ArgPattern, decision: PermissionDecision) -> Rule {
    Rule { tool_name: tool.into(), pattern, decision }
}

#[test]
fn read_list_glob_allowed_by_default() {
    for tool in ["read_file", "list_dir", "glob"] {
        assert_eq!(empty().evaluate(tool, &args(&[("path", "src/lib.rs")])), Verdict::Allow, "{tool}");
    }
}

#[test]
fn write_file_inside_project_allowed_by_default() {
    assert_eq!(empty().evaluate("write_file", &args(&[("path", "src/lib.rs")])), Verdict::Allow);
}

#[test]
fn write_file_outside_project_asks_by_default() {
    assert!(matches!(
        empty().evaluate("write_file", &args(&[("path", "/etc/hosts")])),
        Verdict::Ask { .. }
    ));
}

#[test]
fn dotenv_floor_denies_even_with_allow_rule() {
    let p = policy(
        vec![rule("read_file", ArgPattern::Path(".env".into()), PermissionDecision::Allow)],
        Vec::new(),
    );
    assert!(matches!(p.evaluate("read_file", &args(&[("path", ".env")])), Verdict::Deny { .. }));
}

#[test]
fn front_matter_overrides_default() {
    let p = policy(
        vec![rule("run", ArgPattern::Command("cargo".into()), PermissionDecision::Allow)],
        Vec::new(),
    );
    assert_eq!(p.evaluate("run", &args(&[("command", "cargo test")])), Verdict::Allow);
    assert!(matches!(p.evaluate("run", &args(&[("command", "rm -rf /")])), Verdict::Ask { .. }));
}

#[test]
fn front_matter_beats_toml_on_conflict() {
    let p = policy(
        vec![rule("run", ArgPattern::Command("cargo".into()), PermissionDecision::Deny)],
        vec![rule("run", ArgPattern::Command("cargo".into()), PermissionDecision::Allow)],
    );
    assert!(matches!(p.evaluate("run", &args(&[("command", "cargo test")])), Verdict::Deny { .. }));
}

#[test]
fn toml_rule_overrides_default() {
    let p = policy(
        Vec::new(),
        vec![rule("run", ArgPattern::Command("ls".into()), PermissionDecision::Allow)],
    );
    assert_eq!(p.evaluate("run", &args(&[("command", "ls -la")])), Verdict::Allow);
}

#[test]
fn first_match_wins_within_a_source() {
    let p = policy(
        Vec::new(),
        vec![
            rule("write_file", ArgPattern::Path("src/secret.rs".into()), PermissionDecision::Deny),
            rule("write_file", ArgPattern::Path("src".into()), PermissionDecision::Allow),
        ],
    );
    assert!(matches!(
        p.evaluate("write_file", &args(&[("path", "src/secret.rs")])),
        Verdict::Deny { .. }
    ));
    assert_eq!(p.evaluate("write_file", &args(&[("path", "src/lib.rs")])), Verdict::Allow);
}

#[test]
fn arg_pattern_path_uses_component_prefix() {
    let pat = ArgPattern::Path("src".into());
    assert!(pat.matches(&args(&[("path", "src/lib.rs")])));
    assert!(pat.matches(&args(&[("path", "src")])));
    assert!(!pat.matches(&args(&[("path", "source/file.rs")])));
    assert!(!pat.matches(&args(&[("path", "lib.rs")])));
}

#[test]
fn arg_pattern_command_matches_first_token() {
    let pat = ArgPattern::Command("cargo".into());
    assert!(pat.matches(&args(&[("command", "cargo build")])));
    assert!(pat.matches(&args(&[("command", "cargo")])));
    assert!(!pat.matches(&args(&[("command", "rustup run cargo")])));
}

#[test]
fn for_call_extracts_path_and_command() {
    match ArgPattern::for_call("write_file", &args(&[("path", "src/lib.rs")])) {
        ArgPattern::Path(p) => assert_eq!(p, "src/lib.rs"),
        other => panic!("{other:?}"),
    }
    match ArgPattern::for_call("run", &args(&[("command", "cargo test")])) {
        ArgPattern::Command(c) => assert_eq!(c, "cargo"),
        other => panic!("{other:?}"),
    }
    let m = vec![("x".to_string(), JsonValue::Number("1".to_string()))];
    assert_eq!(
        ArgPattern::for_call("mystery", &ToolArgs::from_json(&JsonValue::Object(m))),
        ArgPattern::Any,
    );
}

#[test]
fn add_rule_replaces_the_same_key() {
    let mut p = PermissionPolicy::from_parts("/tmp".into(), Vec::new(), Some("/h/.savvagent/permissions.toml".into()), Vec::new());
    let file = p.record_rule("run", &args(&[("command", "cargo test")]), PermissionDecision::Allow);
    assert_eq!(file.allow.len(), 1);
    assert_eq!(file.allow[0].tool, "run");
    assert_eq!(file.allow[0].command.as_deref(), Some("cargo"));
    assert!(file.deny.is_empty());
    let file = p.record_rule("run", &args(&[("command", "cargo build")]), PermissionDecision::Deny);
    assert!(file.allow.is_empty());
    assert_eq!(file.deny.len(), 1);
    assert!(matches!(p.evaluate("run", &args(&[("command", "cargo x")])), Verdict::Deny { .. }));
}

#[test]
fn missing_toml_path_does_not_block_evaluation() {
    let p = PermissionPolicy::transient("/tmp");
    assert!(p.toml_path().is_none());
    assert_eq!(p.evaluate("read_file", &args(&[("path", "src/lib.rs")])), Verdict::Allow);
}

#[test]
fn from_json_reads_path_command_and_text() {
    let a = args(&[("path", "a.txt"), ("command", "ls -l")]);
    assert_eq!(a.path.as_deref(), Some("a.txt"));
    assert_eq!(a.command.as_deref(), Some("ls -l"));
    assert!(a.json.contains("\"path\":\"a.txt\""), "{}", a.json);
    let none = ToolArgs::from_json(&JsonValue::Null);
    assert!(none.path.is_none());
    assert_eq!(none.json, "null");
}

#[test]
fn ask_summary_for_commands_and_long_args() {
    match empty().evaluate("run", &args(&[("command", "echo hi")])) {
        Verdict::Ask { summary } => assert_eq!(summary, "run: echo hi"),
        other => panic!("{other:?}"),
    }
    let long = "x".repeat(100);
    assert_eq!(short_args(&long), format!("{}...", "x".repeat(80)));
    assert_eq!(short_args("{}"), "{}");
}

#[test]
fn default_for_layers_front_matter_and_persisted_rules() {
    let fm = FrontMatterPermissions {
        allow: vec![SerializableRule { tool: "run".into(), path: None, command: Some("cargo".into()) }],
        deny: vec![],
    };
    let file = PermissionsToml {
        allow: vec![],
        deny: vec![SerializableRule { tool: "run".into(), path: None, command: Some("cargo".into()) }],
    };
    let p = PermissionPolicy::default_for("/p".into(), fm, None, Some(file));
    assert_eq!(p.front_matter_rules().len(), 1);
    assert_eq!(p.toml_rules_snapshot().len(), 1);
    assert_eq!(p.evaluate("run", &args(&[("command", "cargo t")])), Verdict::Allow);
}

#[test]
fn rules_from_permissions_lists_allow_then_deny() {
    let r = rules_from_permissions(
        vec![SerializableRule { tool: "a".into(), path: Some("x".into()), command: None }],
        vec![SerializableRule { tool: "b".into(), path: None, command: None }],
    );
    assert_eq!(r.len(), 2);
    assert_eq!(r[0].decision, PermissionDecision::Allow);
    assert_eq!(r[0].pattern, ArgPattern::Path("x".into()));
    assert_eq!(r[1].decision, PermissionDecision::Deny);
    assert_eq!(r[1].pattern, ArgPattern::Any);
}

#[test]
fn from_json_text_is_compact_json() {
    let v = JsonValue::Object(vec![
        ("a".to_string(), JsonValue::Number("12".to_string())),
        ("b".to_string(), JsonValue::Array(vec![JsonValue::Bool(true), JsonValue::Null])),
    ]);
    let a = ToolArgs::from_json(&v);
    assert_eq!(a.json, "{\"a\":12,\"b\":[true,null]}");
    assert!(a.path.is_none());
    let bad_path = JsonValue::Object(vec![("path".to_string(), JsonValue::Number("3".to_string()))]);
    assert!(ToolArgs::from_json(&bad_path).path.is_none());
}

#[test]
fn floor_denies_every_sensitive_path() {
    let p = PermissionPolicy::transient("/home/u/proj");
    assert!(matches!(
        p.evaluate("read_file", &args(&[("path", "/home/u/.aws/credentials")])),
        Verdict::Deny { .. }
    ));
    assert!(matches!(p.evaluate("read_file", &args(&[("path", "/home/u/.gnupg/x")])), Verdict::Deny { .. }));
}
