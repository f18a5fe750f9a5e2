use savvagent::sandbox::{build_macos_profile_with, bwrap_args, hide_mount_args, sandbox_requested,
    scheme_quote, HiddenKind, LoadOutcome, SandboxConfig, ToolSandboxOverride};

fn config_on() -> SandboxConfig {
    SandboxConfig::default()
}

fn linux_args(cfg: &SandboxConfig, tool_bin: &str) -> Vec<String> {
    let allow = cfg.net_allowed_for(tool_bin);
    let binds = cfg.extra_binds_for(tool_bin);
    bwrap_args(Some("/tmp/project"), &binds, allow, &[], tool_bin, &[])
}

#[test]
fn default_config_has_sandboxing_enabled() {
    let cfg = SandboxConfig::default();
    assert!(cfg.enabled, "v0.7 default-on: SandboxConfig::default() must have enabled=true");
}

#[test]
fn default_config_denies_tool_bash_net_by_built_in_fallback() {
    let cfg = SandboxConfig::default();
    assert!(cfg.tool_overrides.is_empty(), "default still has empty tool_overrides");
    assert!(!cfg.net_allowed_for("/usr/bin/savvagent-tool-bash"));
    assert!(!cfg.net_allowed_for("/usr/bin/savvagent-tool-fs"));
}

#[test]
fn explicit_user_tool_bash_override_grants_net() {
    let mut cfg = SandboxConfig { enabled: true, allow_net: false, ..SandboxConfig::default() };
    cfg.tool_overrides.insert(
        "tool-bash".to_string(),
        ToolSandboxOverride { allow_net: Some(true), extra_binds: Vec::new() },
    );
    assert!(
        cfg.net_allowed_for("/usr/bin/savvagent-tool-bash"),
        "explicit user override allow_net=true must grant net for bash"
    );
}

#[test]
fn user_tool_overrides_for_other_tools_leave_bash_default_deny() {
    let mut cfg = SandboxConfig { enabled: true, allow_net: false, ..SandboxConfig::default() };
    cfg.tool_overrides.insert(
        "tool-fs".to_string(),
        ToolSandboxOverride { allow_net: Some(false), extra_binds: vec!["/data".to_string()] },
    );
    assert!(!cfg.net_allowed_for("/usr/bin/savvagent-tool-bash"));
    assert!(!cfg.net_allowed_for("/usr/bin/savvagent-tool-fs"));
}

#[test]
fn non_bash_tool_inherits_global_net_setting() {
    let cfg = SandboxConfig { enabled: true, allow_net: false, ..SandboxConfig::default() };
    assert!(!cfg.net_allowed_for("/usr/local/bin/savvagent-tool-fs"));
    let open = SandboxConfig { allow_net: true, ..SandboxConfig::default() };
    assert!(open.net_allowed_for("/usr/local/bin/savvagent-tool-fs"));
}

#[test]
fn per_tool_override_can_deny_net_for_bash() {
    let mut cfg = SandboxConfig::default();
    cfg.tool_overrides.insert(
        "tool-bash".to_string(),
        ToolSandboxOverride { allow_net: Some(false), extra_binds: Vec::new() },
    );
    assert!(!cfg.net_allowed_for("/usr/local/bin/savvagent-tool-bash"));
}

#[test]
fn extra_binds_merged_from_global_and_tool_override() {
    let global_bind = "/data/shared".to_string();
    let tool_bind = "/tmp/scratch".to_string();
    let mut cfg = SandboxConfig { extra_binds: vec![global_bind.clone()], ..SandboxConfig::default() };
    cfg.tool_overrides.insert(
        "tool-fs".to_string(),
        ToolSandboxOverride { allow_net: None, extra_binds: vec![tool_bind.clone()] },
    );
    let binds = cfg.extra_binds_for("/usr/local/bin/savvagent-tool-fs");
    assert_eq!(binds.len(), 2);
    assert!(binds.contains(&global_bind));
    assert!(binds.contains(&tool_bind));
}

#[test]
fn disabled_config_requests_no_wrapper() {
    let cfg = SandboxConfig { enabled: false, ..SandboxConfig::default() };
    assert!(!sandbox_requested(&cfg));
    assert!(sandbox_requested(&config_on()));
}

#[test]
fn bwrap_argv_contains_required_flags() {
    let args = linux_args(&config_on(), "/usr/local/bin/savvagent-tool-fs");
    assert!(args.windows(3).any(|w| w == ["--ro-bind", "/", "/"]), "expected --ro-bind / / in {args:?}");
    assert!(args.contains(&"--die-with-parent".to_string()), "expected --die-with-parent in {args:?}");
    assert!(args.contains(&"--unshare-net".to_string()), "expected --unshare-net in {args:?}");
}

#[test]
fn bwrap_argv_no_unshare_when_net_allowed() {
    let mut cfg = config_on();
    cfg.allow_net = true;
    let args = linux_args(&cfg, "/usr/local/bin/savvagent-tool-fs");
    assert!(!args.contains(&"--unshare-net".to_string()), "{args:?}");
}

#[test]
fn tool_bash_unshares_net_by_default_post_pr15() {
    let args = linux_args(&config_on(), "/usr/local/bin/savvagent-tool-bash");
    assert!(args.contains(&"--unshare-net".to_string()), "{args:?}");
}

#[test]
fn tool_bash_with_explicit_allow_net_override_keeps_net() {
    let mut cfg = config_on();
    cfg.tool_overrides.insert(
        "tool-bash".to_string(),
        ToolSandboxOverride { allow_net: Some(true), extra_binds: Vec::new() },
    );
    let args = linux_args(&cfg, "/usr/local/bin/savvagent-tool-bash");
    assert!(!args.contains(&"--unshare-net".to_string()), "{args:?}");
}

#[test]
fn bwrap_argv_exact_layout() {
    let args = bwrap_args(
        Some("/p"),
        &["/b".to_string()],
        false,
        &["--tmpfs".to_string(), "/h/.ssh".to_string()],
        "tool",
        &["x".to_string()],
    );
    let want: Vec<String> = [
        "--ro-bind", "/", "/", "--bind", "/p", "/p", "--bind", "/b", "/b", "--unshare-net",
        "--die-with-parent", "--new-session", "--tmpfs", "/h/.ssh", "--", "tool", "x",
    ]
    .iter()
    .map(|s| s.to_string())
    .collect();
    assert_eq!(args, want);
}

#[test]
fn scheme_quote_escapes_backslash_and_double_quote() {
    assert_eq!(scheme_quote("plain"), "plain");
    assert_eq!(scheme_quote(r#"with"quote"#), r#"with\"quote"#);
    assert_eq!(scheme_quote(r"with\backslash"), r"with\\backslash");
    assert_eq!(scheme_quote(r#"a"b\c"#), r#"a\"b\\c"#);
}

#[test]
fn scheme_quote_escapes_newlines() {
    assert_eq!(scheme_quote("line1\nline2"), "line1\\nline2");
    assert_eq!(scheme_quote("a\rb"), "a\\rb");
}

#[test]
fn macos_profile_quotes_path_with_double_quote() {
    let profile = build_macos_profile_with(r#"/tmp/proj"with"quote"#, false, &[], &[]);
    assert!(
        profile.contains(r#"(allow file-write* (subpath "/tmp/proj\"with\"quote"))"#),
        "profile did not properly escape quotes:\n{profile}"
    );
    assert!(profile.contains("(deny file-write*)"));
    assert!(profile.contains("(deny network*)"));
}

#[test]
fn macos_profile_includes_extra_binds() {
    let binds = vec!["/data/cache".to_string(), "/var/tmp/scratch".to_string()];
    let profile = build_macos_profile_with("/tmp/project", false, &binds, &[]);
    assert!(profile.contains(r#"(allow file-write* (subpath "/tmp/project"))"#), "{profile}");
    assert!(profile.contains(r#"(allow file-write* (subpath "/data/cache"))"#), "{profile}");
    assert!(profile.contains(r#"(allow file-write* (subpath "/var/tmp/scratch"))"#), "{profile}");
}

#[test]
fn macos_profile_omits_network_when_disallowed() {
    let denied = build_macos_profile_with("/tmp/project", false, &[], &[]);
    assert!(denied.contains("(deny network*)"), "{denied}");
    let allowed = build_macos_profile_with("/tmp/project", true, &[], &[]);
    assert!(!allowed.contains("(deny network*)"), "{allowed}");
}

#[test]
fn build_macos_profile_with_appends_file_read_deny_for_sensitive_paths() {
    let sensitive = vec!["/Users/alice/.ssh".to_string(), "/Users/alice/.aws".to_string()];
    let profile = build_macos_profile_with("/Users/alice/project", false, &[], &sensitive);
    assert!(profile.contains(r#"(deny file-read* (subpath "/Users/alice/.ssh"))"#), "{profile}");
    assert!(profile.contains(r#"(deny file-read* (subpath "/Users/alice/.aws"))"#), "{profile}");
    assert!(profile.contains("(allow file-write* (subpath \"/Users/alice/project\"))"));
    assert!(profile.contains("(deny network*)"));
}

#[test]
fn macos_profile_escapes_extra_bind_paths() {
    let binds = vec![r#"/tmp/with"quote"#.to_string()];
    let profile = build_macos_profile_with("/tmp/project", true, &binds, &[]);
    assert!(
        profile.contains(r#"(allow file-write* (subpath "/tmp/with\"quote"))"#),
        "extra bind not properly escaped:\n{profile}"
    );
}

#[test]
fn hide_mount_args_for_existing_directory_use_tmpfs() {
    let args = hide_mount_args(HiddenKind::Directory, "/home/u/.ssh");
    assert_eq!(args, vec!["--tmpfs".to_string(), "/home/u/.ssh".to_string()]);
}

#[test]
fn hide_mount_args_for_existing_file_use_ro_bind_dev_null() {
    let args = hide_mount_args(HiddenKind::File, "/home/u/.netrc");
    assert_eq!(
        args,
        vec!["--ro-bind".to_string(), "/dev/null".to_string(), "/home/u/.netrc".to_string()]
    );
}

#[test]
fn hide_mount_args_for_missing_path_returns_empty() {
    assert!(hide_mount_args(HiddenKind::Missing, "/nonexistent").is_empty());
}

#[test]
fn load_from_path_returns_default_on_when_file_absent() {
    let cfg = SandboxConfig::from_load_outcome(LoadOutcome::Missing);
    assert!(cfg.enabled, "absent file must default to enabled=true");
}

#[test]
fn load_from_path_preserves_explicit_enabled_false() {
    let parsed = SandboxConfig { enabled: false, ..SandboxConfig::default() };
    let cfg = SandboxConfig::from_load_outcome(LoadOutcome::Parsed(parsed));
    assert!(!cfg.enabled);
}

#[test]
fn load_from_path_falls_back_to_disabled_on_parse_error() {
    let cfg = SandboxConfig::from_load_outcome(LoadOutcome::Malformed);
    assert!(!cfg.enabled, "parse error must fall back to disabled (fail-safe), not default-on");
}

#[test]
fn bash_override_pinned_only_when_unset() {
    let base = SandboxConfig::default();
    let with = base.with_bash_net(true);
    assert!(with.net_allowed_for("/bin/savvagent-tool-bash"));
    let mut pinned = SandboxConfig::default();
    pinned.tool_overrides.insert(
        "tool-bash".to_string(),
        ToolSandboxOverride { allow_net: Some(false), extra_binds: Vec::new() },
    );
    let kept = pinned.with_bash_net(true);
    assert!(!kept.net_allowed_for("/bin/savvagent-tool-bash"), "user pin wins");
}
