//! Host configuration: where the provider lives, which tool servers to
//! launch, and the knobs that shape each turn.
use vstd::prelude::*;

use crate::permissions::PermissionPolicy;
use crate::sandbox::SandboxConfig;
use crate::text::TextLike;

verus! {

/// Where the host reaches the LLM provider.
#[derive(Debug, Clone)]
pub enum ProviderEndpoint {
    /// A provider served over MCP Streamable HTTP.
    StreamableHttp {
        /// Full URL ending in the MCP path, e.g. `http://127.0.0.1:8787/mcp`.
        url: String,
    },
}

/// How to launch a tool MCP server.
#[derive(Debug, Clone)]
pub enum ToolEndpoint {
    /// Spawn `command` with `args` as a child process and speak MCP over its
    /// stdin/stdout pipes.
    Stdio {
        /// Path to the binary.
        command: String,
        /// Arguments forwarded verbatim.
        args: Vec<String>,
    },
}

/// Top-level host configuration.
#[derive(Debug)]
pub struct HostConfig {
    /// Provider to route completion calls to.
    pub provider: ProviderEndpoint,
    /// Tool MCP servers to spawn at startup.
    pub tools: Vec<ToolEndpoint>,
    /// Provider-specific model identifier.
    pub model: String,
    /// Hard cap on response tokens for each completion call.
    pub max_tokens: u32,
    /// Project root, used to locate the project context file.
    pub project_root: String,
    /// Optional embedder-supplied system-prompt layer, composed after the
    /// built-in default prompt and before the project body.
    pub system_prompt: Option<String>,
    /// Hard cap on tool-use iterations within a single turn.
    pub max_iterations: u32,
    /// Permission policy override; `None` means the host builds the
    /// default policy for `project_root`.
    pub policy: Option<PermissionPolicy>,
    /// OS-level sandbox configuration for tool spawns; `None` means the
    /// host loads the user's sandbox settings.
    pub sandbox: Option<SandboxConfig>,
    /// Whether the built-in default system prompt layer is composed.
    pub default_prompt_enabled: bool,
    /// Embedder-supplied app version shown in the default prompt.
    pub app_version: Option<String>,
}

impl HostConfig {
    /// Every field but `tools` is the same in `self` and `other`.
    pub open spec fn same_except_tools(&self, other: &HostConfig) -> bool {
        &&& self.provider == other.provider
        &&& self.model == other.model
        &&& self.max_tokens == other.max_tokens
        &&& self.project_root == other.project_root
        &&& self.system_prompt == other.system_prompt
        &&& self.max_iterations == other.max_iterations
        &&& self.policy == other.policy
        &&& self.sandbox == other.sandbox
        &&& self.default_prompt_enabled == other.default_prompt_enabled
        &&& self.app_version == other.app_version
    }

    /// New config with the defaults: 4096 max tokens, 20 iterations, project
    /// root `.`, no tools, no system-prompt override, no policy or sandbox
    /// override, default prompt enabled, no app version.
    pub fn new<T: TextLike>(provider: ProviderEndpoint, model: T) -> (c: Self)
        ensures
            c.provider == provider,
            c.tools@ == Seq::<ToolEndpoint>::empty(),
            c.model@ == model.text(),
            c.max_tokens == 4096,
            c.project_root@ == "."@,
            c.system_prompt is None,
            c.max_iterations == 20,
            c.policy is None,
            c.sandbox is None,
            c.default_prompt_enabled,
            c.app_version is None,
    {
        HostConfig {
            provider,
            tools: Vec::new(),
            model: model.into_text(),
            max_tokens: 4096,
            project_root: String::from_str("."),
            system_prompt: None,
            max_iterations: 20,
            policy: None,
            sandbox: None,
            default_prompt_enabled: true,
            app_version: None,
        }
    }

    /// Add a tool endpoint to the config.
    pub fn with_tool(self, tool: ToolEndpoint) -> (c: Self)
        ensures
            c.tools@ == self.tools@.push(tool),
            c.same_except_tools(&self),
    {
        let mut c = self;
        c.tools.push(tool);
        c
    }

    /// Override the project root.
    pub fn with_project_root<T: TextLike>(self, path: T) -> (c: Self)
        ensures
            c.project_root@ == path.text(),
            c == (HostConfig { project_root: c.project_root, ..self }),
    {
        let mut c = self;
        c.project_root = path.into_text();
        c
    }

    /// Override the system prompt.
    pub fn with_system_prompt<T: TextLike>(self, prompt: T) -> (c: Self)
        ensures
            c.system_prompt matches Some(p) && p@ == prompt.text(),
            c == (HostConfig { system_prompt: c.system_prompt, ..self }),
    {
        let mut c = self;
        c.system_prompt = Some(prompt.into_text());
        c
    }

    /// Override the max-tokens cap.
    pub fn with_max_tokens(self, n: u32) -> (c: Self)
        ensures
            c == (HostConfig { max_tokens: n, ..self }),
    {
        let mut c = self;
        c.max_tokens = n;
        c
    }

    /// Override the iteration cap.
    pub fn with_max_iterations(self, n: u32) -> (c: Self)
        ensures
            c == (HostConfig { max_iterations: n, ..self }),
    {
        let mut c = self;
        c.max_iterations = n;
        c
    }

    /// Override the permission policy.
    pub fn with_policy(self, policy: PermissionPolicy) -> (c: Self)
        ensures
            c == (HostConfig { policy: Some(policy), ..self }),
    {
        let mut c = self;
        c.policy = Some(policy);
        c
    }

    /// Override the sandbox configuration.
    pub fn with_sandbox(self, sandbox: SandboxConfig) -> (c: Self)
        ensures
            c == (HostConfig { sandbox: Some(sandbox), ..self }),
    {
        let mut c = self;
        c.sandbox = Some(sandbox);
        c
    }

    /// Disable the built-in default-prompt layer. The system-prompt override
    /// and the project body still compose.
    pub fn with_default_prompt_disabled(self) -> (c: Self)
        ensures
            c == (HostConfig { default_prompt_enabled: false, ..self }),
    {
        let mut c = self;
        c.default_prompt_enabled = false;
        c
    }

    /// Set the app version label rendered in the default prompt.
    pub fn with_app_version<T: TextLike>(self, version: T) -> (c: Self)
        ensures
            c.app_version matches Some(v) && v@ == version.text(),
            c == (HostConfig { app_version: c.app_version, ..self }),
    {
        let mut c = self;
        c.app_version = Some(version.into_text());
        c
    }
}

} // verus!
