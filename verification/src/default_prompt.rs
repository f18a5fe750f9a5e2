//! The default system prompt.
//!
//! Five sections in order: identity, behavior expectations, tool
//! affordances, environment, conventions. The affordances section lists
//! tool NAMES only, each sanitized and wrapped in a code span, one per
//! line; tool descriptions never enter the prompt. The environment section
//! is rendered from [`PromptEnv`].
use vstd::prelude::*;

use crate::protocol::ToolDef;
use crate::text::{chars_of, push_char};

verus! {

/// Where the app-version label comes from.
#[derive(Debug, Clone, PartialEq, Eq)]
pub enum AppVersion<'a> {
    /// Embedder-supplied label, e.g. the binary's package version.
    App(&'a str),
    /// No embedder version: the host crate's own version.
    HostCrateFallback(&'static str),
}

/// Snapshot of the host environment used to render the default prompt.
#[derive(Debug, Clone)]
pub struct PromptEnv<'a> {
    /// Root directory of the user's project.
    pub project_root: &'a str,
    /// Operating system name (e.g. `"linux"`, `"macos"`).
    pub os: &'static str,
    /// CPU architecture (e.g. `"x86_64"`, `"aarch64"`).
    pub arch: &'static str,
    /// True iff git is present at the project root.
    pub git_present: bool,
    /// True iff the host wired a shell tool endpoint.
    pub bash_available: bool,
    /// App version label source.
    pub app_version: AppVersion<'a>,
}

/// Who the agent is.
pub const IDENTITY: &'static str = "You are Savvagent — an open-source terminal coding agent. You run locally as a Rust binary and talk to the user through a TUI in their terminal. You orchestrate tool calls and provider completions over MCP.";

/// How the agent is expected to behave.
pub const BEHAVIOR: &'static str = "## Behavior expectations

- Use the tools available to you proactively. If you're not sure whether a tool will work for a task, try it before assuming a limitation.
- Never claim you \"cannot access\" something without first checking whether a tool you have can reach it (e.g. the shell can run `gh`, `curl`, `git`, `rg`, language toolchains, build systems, and any other CLI installed on the user's machine).
- Prefer concrete, verifiable actions over disclaimers. When the user asks about external state (an issue, a file, a process), look it up.
- Keep responses tight. The user is reading them in a terminal.";

/// Output conventions.
pub const CONVENTIONS: &'static str = "## Conventions

- File paths in user-visible output use the form `path/to/file.rs:42` so the user can click to navigate in supported terminals.
- When you edit files, show the user a brief summary of what changed, not the full diff (their TUI already renders diffs).";

/// Heading and preamble of a non-empty tool list.
pub const AFFORDANCES_PREAMBLE: &'static str = "## Tool affordances

The host has wired the following tools for this session. The list is informational; consult the typed tool schemas for argument shapes and behavior — they are the authoritative source.";

/// The tool section when no tool is connected.
pub const AFFORDANCES_EMPTY: &'static str = "## Tool affordances

No tools are currently connected — answer from conversation context only.";

/// One character of a tool name as it appears in the prompt: a backtick
/// becomes `'`, an ASCII control character becomes `?`.
pub open spec fn sanitize_char(c: char) -> char {
    if c == '`' {
        '\''
    } else if (c as u32) < 0x20 || (c as u32) == 0x7f {
        '?'
    } else {
        c
    }
}

/// A tool name as it appears in the prompt.
pub open spec fn sanitize_spec(name: Seq<char>) -> Seq<char> {
    name.map_values(|c: char| sanitize_char(c))
}

/// One list entry: the sanitized name in a code span after a bullet.
pub open spec fn tool_entry(name: Seq<char>) -> Seq<char> {
    "- `"@ + sanitize_spec(name) + "`"@
}

/// Each entry followed by a newline, in order.
pub open spec fn tool_lines(names: Seq<Seq<char>>) -> Seq<char>
    decreases names.len(),
{
    if names.len() == 0 {
        Seq::empty()
    } else {
        tool_lines(names.drop_last()) + tool_entry(names.last()).push('\n')
    }
}

/// The tool-affordances section: the empty notice, or the preamble, a blank
/// line, and the entries (without a final newline).
pub open spec fn affordances_spec(names: Seq<Seq<char>>) -> Seq<char> {
    if names.len() == 0 {
        AFFORDANCES_EMPTY@
    } else {
        AFFORDANCES_PREAMBLE@ + "\n\n"@ + tool_lines(names).drop_last()
    }
}

/// The version line: the embedder's label, or the host crate's version
/// flagged as such.
pub open spec fn version_line(v: AppVersion) -> Seq<char> {
    match v {
        AppVersion::App(s) => "Savvagent version: "@ + s@,
        AppVersion::HostCrateFallback(s) => "Savvagent host crate version: "@ + s@,
    }
}

/// The environment section: project root, operating system, architecture,
/// whether git and a shell tool are present, and the version line.
pub open spec fn environment_spec(env: PromptEnv) -> Seq<char> {
    "## Environment\n\n- Project root: "@ + env.project_root@ + "\n- Operating system: "@ + env.os@
        + "\n- Architecture: "@ + env.arch@ + "\n- Git repository: "@ + (if env.git_present {
        "yes"@
    } else {
        "no"@
    }) + "\n- Shell tool: "@ + (if env.bash_available {
        "available"@
    } else {
        "not available"@
    }) + "\n- "@ + version_line(env.app_version)
}

/// The whole default prompt for an environment and a list of tool names.
pub open spec fn prompt_spec(env: PromptEnv, names: Seq<Seq<char>>) -> Seq<char> {
    IDENTITY@ + "\n\n"@ + BEHAVIOR@ + "\n\n"@ + affordances_spec(names) + "\n\n"@ + environment_spec(env)
        + "\n\n"@ + CONVENTIONS@
}

/// The names of a tool list, in order.
pub open spec fn tool_names(tools: Seq<ToolDef>) -> Seq<Seq<char>> {
    tools.map_values(|t: ToolDef| t.name@)
}

/// A sanitized name holds no backtick and no ASCII control character, so it
/// can neither close its code span nor start a new line.
pub proof fn law_sanitized_name_is_inert(name: Seq<char>)
    ensures
        forall|i: int|
            0 <= i < sanitize_spec(name).len() ==> {
                let c = #[trigger] sanitize_spec(name)[i];
                c != '`' && c != '\n' && c != '\r' && (c as u32) >= 0x20 && (c as u32) != 0x7f
            },
{
}

/// The prompt depends on the tools' names only: two tool lists with the same
/// names give the same prompt, whatever their descriptions and schemas.
pub proof fn law_prompt_ignores_descriptions(env: PromptEnv, a: Seq<ToolDef>, b: Seq<ToolDef>)
    requires
        tool_names(a) == tool_names(b),
    ensures
        prompt_spec(env, tool_names(a)) == prompt_spec(env, tool_names(b)),
{
}

/// The entry lines end with a newline.
proof fn lemma_tool_lines_end(names: Seq<Seq<char>>)
    requires
        names.len() > 0,
    ensures
        tool_lines(names).len() > 0,
        tool_lines(names).last() == '\n',
{
}

/// In the entry lines, after a leading newline, entry `i` stands on a line
/// of its own: a newline, the entry, a newline.
proof fn lemma_entry_line(names: Seq<Seq<char>>, i: int)
    requires
        0 <= i < names.len(),
    ensures
        ({
            let x = seq!['\n'] + tool_lines(names);
            let p = tool_lines(names.take(i)).len() as int;
            let e = tool_entry(names[i]);
            &&& p + e.len() + 2 <= x.len()
            &&& x.subrange(p, p + e.len() + 2) == seq!['\n'] + e + seq!['\n']
        }),
    decreases names.len(),
{
    let d = names.drop_last();
    let x = seq!['\n'] + tool_lines(names);
    let xd = seq!['\n'] + tool_lines(d);
    let ex = tool_entry(names.last());
    assert(x =~= xd + ex + seq!['\n']);
    if i == names.len() - 1 {
        assert(names.take(i) =~= d);
        let p = tool_lines(d).len() as int;
        if d.len() > 0 {
            lemma_tool_lines_end(d);
        }
        assert(xd.last() == '\n');
        assert(x.subrange(p, p + ex.len() + 2) =~= seq!['\n'] + ex + seq!['\n']);
    } else {
        lemma_entry_line(d, i);
        assert(d.take(i) =~= names.take(i));
        assert(d[i] == names[i]);
        let p = tool_lines(names.take(i)).len() as int;
        let e = tool_entry(names[i]);
        assert(x.subrange(p, p + e.len() + 2) =~= xd.subrange(p, p + e.len() + 2));
    }
}

/// Every tool is listed: each tool's entry (its sanitized name in a code
/// span after a bullet) stands in the prompt on a line of its own.
pub proof fn law_every_tool_is_listed(env: PromptEnv, names: Seq<Seq<char>>, i: int)
    requires
        0 <= i < names.len(),
    ensures
        exists|k: int|
            0 <= k && k + tool_entry(names[i]).len() + 2 <= prompt_spec(env, names).len()
                && #[trigger] prompt_spec(env, names).subrange(k, k + tool_entry(names[i]).len() + 2)
                == seq!['\n'] + tool_entry(names[i]) + seq!['\n'],
{
    lemma_entry_line(names, i);
    lemma_tool_lines_end(names);
    let t = tool_lines(names);
    let x = seq!['\n'] + t;
    let head = IDENTITY@ + "\n\n"@ + BEHAVIOR@ + "\n\n"@ + AFFORDANCES_PREAMBLE@ + seq!['\n'];
    let tail = seq!['\n'] + environment_spec(env) + "\n\n"@ + CONVENTIONS@;
    let pr = prompt_spec(env, names);
    assert(t.drop_last() + seq!['\n'] =~= t);
    assert(pr =~= head + x + tail) by {
        reveal_strlit("\n\n");
        assert(affordances_spec(names) =~= AFFORDANCES_PREAMBLE@ + "\n\n"@ + t.drop_last());
    }
    let p = tool_lines(names.take(i)).len() as int;
    let e = tool_entry(names[i]);
    let k = head.len() + p;
    assert(pr.subrange(k, k + e.len() + 2) =~= x.subrange(p, p + e.len() + 2));
}

/// Sanitize a tool name for the prompt: backticks become `'`, ASCII control
/// characters become `?`, everything else is kept.
pub fn sanitize_tool_name(name: &str) -> (r: String)
    ensures
        r@ == sanitize_spec(name@),
{
    let cs = chars_of(name);
    let n = cs.len();
    let mut out = String::new();
    for i in 0..n
        invariant
            n == cs@.len(),
            cs@ == name@,
            out@ == sanitize_spec(cs@.take(i as int)),
    {
        let c = cs[i];
        let u = c as u32;
        let d = if c == '`' {
            '\''
        } else if u < 0x20 || u == 0x7f {
            '?'
        } else {
            c
        };
        push_char(&mut out, d);
        assert(sanitize_spec(cs@.take(i + 1)) =~= sanitize_spec(cs@.take(i as int)).push(d));
    }
    assert(cs@.take(n as int) =~= cs@);
    out
}

/// Append the tool-affordances section for `tools` to `out`.
fn render_affordances(out: &mut String, tools: &[ToolDef])
    ensures
        final(out)@ == old(out)@ + affordances_spec(tool_names(tools@)),
{
    let n = tools.len();
    if n == 0 {
        out.append(AFFORDANCES_EMPTY);
        return;
    }
    let ghost start = out@;
    out.append(AFFORDANCES_PREAMBLE);
    out.append("\n\n");
    let ghost head = out@;
    let ghost names = tool_names(tools@);
    for i in 0..n
        invariant
            n == tools@.len(),
            n > 0,
            names == tool_names(tools@),
            head == start + AFFORDANCES_PREAMBLE@ + "\n\n"@,
            i == 0 ==> out@ == head,
            i > 0 ==> out@.push('\n') == head + tool_lines(names.take(i as int)),
    {
        if i > 0 {
            push_char(out, '\n');
        }
        let ghost before = out@;
        out.append("- `");
        let s = sanitize_tool_name(tools[i].name.as_str());
        out.append(s.as_str());
        out.append("`");
        proof {
            let k = i as int;
            assert(names.take(k + 1).drop_last() =~= names.take(k));
            assert(names.take(k + 1).last() == tools@[k].name@);
            assert(out@ == before + tool_entry(tools@[k].name@));
            if k == 0 {
                assert(tool_lines(names.take(0)) =~= Seq::<char>::empty());
            }
            assert(out@.push('\n') =~= head + tool_lines(names.take(k + 1)));
        }
    }
    proof {
        assert(names.take(n as int) =~= names);
        assert(out@ =~= (out@.push('\n')).drop_last());
        assert((head + tool_lines(names)).drop_last() =~= head + tool_lines(names).drop_last());
        assert(head + tool_lines(names).drop_last() =~= start + affordances_spec(names));
    }
}

/// Append the environment section for `env` to `out`.
fn render_environment(out: &mut String, env: &PromptEnv<'_>)
    ensures
        final(out)@ == old(out)@ + environment_spec(*env),
{
    out.append("## Environment\n\n- Project root: ");
    out.append(env.project_root);
    out.append("\n- Operating system: ");
    out.append(env.os);
    out.append("\n- Architecture: ");
    out.append(env.arch);
    out.append("\n- Git repository: ");
    if env.git_present {
        out.append("yes");
    } else {
        out.append("no");
    }
    out.append("\n- Shell tool: ");
    if env.bash_available {
        out.append("available");
    } else {
        out.append("not available");
    }
    out.append("\n- ");
    match env.app_version {
        AppVersion::App(v) => {
            out.append("Savvagent version: ");
            out.append(v);
        },
        AppVersion::HostCrateFallback(v) => {
            out.append("Savvagent host crate version: ");
            out.append(v);
        },
    }
    proof {
        assert(out@ =~= old(out)@ + environment_spec(*env));
    }
}

/// Render the default prompt. It reads each tool's name only, and the
/// environment snapshot.
pub fn build(env: &PromptEnv<'_>, tools: &[ToolDef]) -> (r: String)
    ensures
        r@ == prompt_spec(*env, tool_names(tools@)),
{
    let mut out = String::new();
    out.append(IDENTITY);
    out.append("\n\n");
    out.append(BEHAVIOR);
    out.append("\n\n");
    render_affordances(&mut out, tools);
    out.append("\n\n");
    render_environment(&mut out, env);
    out.append("\n\n");
    out.append(CONVENTIONS);
    proof {
        assert(out@ =~= prompt_spec(*env, tool_names(tools@)));
    }
    out
}

} // verus!
