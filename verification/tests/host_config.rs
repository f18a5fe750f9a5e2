use savvagent::capabilities::{CostTier, ModelAlias, ModelCapabilities, ProviderCapabilities};
use savvagent::config::{HostConfig, ProviderEndpoint, ToolEndpoint};
use savvagent::plugin::ProviderId;

fn anthropic() -> ProviderId {
    ProviderId("anthropic".into())
}

fn opus_caps() -> ModelCapabilities {
    ModelCapabilities {
        id: "opus-4-7".into(),
        display_name: "Opus 4.7".into(),
        supports_vision: true,
        supports_audio: false,
        context_window: 200_000,
        cost_tier: CostTier::Premium,
    }
}

#[test]
fn provider_caps_lookup_by_id() {
    let caps = ProviderCapabilities {
        models: vec![opus_caps()],
        default_model: "opus-4-7".into(),
    };
    assert_eq!(caps.model("opus-4-7").unwrap().id, "opus-4-7");
    assert!(caps.model("not-a-model").is_none());
    assert_eq!(caps.default().id, "opus-4-7");
}

#[test]
fn model_alias_struct_is_constructible() {
    let alias = ModelAlias {
        alias: "opus".into(),
        provider: anthropic(),
        model: "opus-4-7".into(),
    };
    assert_eq!(alias.alias, "opus");
}

#[test]
#[should_panic(expected = "default_model must exist in models")]
fn default_panics_when_unset() {
    let caps = ProviderCapabilities {
        models: vec![],
        default_model: "missing".into(),
    };
    let _ = caps.default();
}

#[test]
fn model_lookup_returns_the_first_match() {
    let mut second = opus_caps();
    second.display_name = "duplicate".into();
    let caps = ProviderCapabilities {
        models: vec![opus_caps(), second],
        default_model: "opus-4-7".into(),
    };
    assert_eq!(caps.model("opus-4-7").unwrap().display_name, "Opus 4.7");
}

fn cfg() -> HostConfig {
    HostConfig::new(
        ProviderEndpoint::StreamableHttp {
            url: "http://localhost/mcp".into(),
        },
        "test-model",
    )
}

#[test]
fn default_prompt_enabled_defaults_to_true() {
    assert!(cfg().default_prompt_enabled);
}

#[test]
fn with_default_prompt_disabled_flips_flag() {
    let c = cfg().with_default_prompt_disabled();
    assert!(!c.default_prompt_enabled);
}

#[test]
fn app_version_defaults_to_none() {
    assert!(cfg().app_version.is_none());
}

#[test]
fn with_app_version_accepts_static_str_literal() {
    let c = cfg().with_app_version("9.9.9");
    assert_eq!(c.app_version.as_deref(), Some("9.9.9"));
}

#[test]
fn with_app_version_accepts_runtime_owned_string() {
    let runtime_value: String = format!("{}.{}.{}", 1, 2, 3);
    let c = cfg().with_app_version(runtime_value);
    assert_eq!(c.app_version.as_deref(), Some("1.2.3"));
}

#[test]
fn host_config_defaults() {
    let c = cfg();
    assert_eq!(c.model, "test-model");
    assert_eq!(c.max_tokens, 4096);
    assert_eq!(c.max_iterations, 20);
    assert_eq!(c.project_root, ".");
    assert!(c.tools.is_empty());
    assert!(c.system_prompt.is_none());
    assert!(c.policy.is_none());
    assert!(c.sandbox.is_none());
}

#[test]
fn host_config_builders_set_one_field_each() {
    let c = cfg()
        .with_tool(ToolEndpoint::Stdio { command: "tool-fs".into(), args: vec!["-v".into()] })
        .with_project_root("/work")
        .with_system_prompt("be brief")
        .with_max_tokens(100)
        .with_max_iterations(3);
    assert_eq!(c.tools.len(), 1);
    assert_eq!(c.project_root, "/work");
    assert_eq!(c.system_prompt.as_deref(), Some("be brief"));
    assert_eq!(c.max_tokens, 100);
    assert_eq!(c.max_iterations, 3);
    assert_eq!(c.model, "test-model");
    assert!(c.default_prompt_enabled);
}
