//! Tool-call permission policy.
//!
//! Each tool use the model proposes is evaluated against a
//! [`PermissionPolicy`], which yields a [`Verdict`]. `evaluate` walks the
//! rule sources in this order and returns the verdict of the first match:
//!
//! 1. the sensitive-path floor (whatever `sensitive_paths::is_sensitive_path`
//!    flags: `.env*` files, `.ssh`, `.aws`, `.gnupg`, ... are always denied);
//! 2. the project's front-matter rules;
//! 3. the user's persisted rules;
//! 4. the built-in defaults.
//!
//! Within a source the first matching rule wins.
use vstd::prelude::*;

use crate::json::{JsonValue, JsonView, as_text, json_view, object_member, str_of};
use crate::paths::{is_under, is_under_spec, path_starts_with, starts_with_path, lemma_starts_with_self};
use crate::sensitive_paths::{is_sensitive_path, is_sensitive_spec, last_segment, last_segment_exec, normalize_slashes,
    normalize_slashes_exec, segment_hit, segment_hit_exec};
use crate::protocol::opt_chars;
use crate::text::{chars_of, concat2, concat3, first_token, first_token_exec, has_prefix, seq_eq,
    starts_with, string_from, string_from_range};

verus! {

// ---------------------------------------------------------------------------
// Tool-call arguments
// ---------------------------------------------------------------------------
/// The string stored under `key`, when the value is an object holding a
/// string there.
pub open spec fn str_member(v: JsonView, key: Seq<char>) -> Option<Seq<char>> {
    as_text(object_member(v, key))
}

/// The string stored under `key` (see `str_member`).
fn str_member_exec(v: &JsonValue, key: &str) -> (r: Option<String>)
    ensures
        opt_chars(r) == str_member(json_view(*v), key@),
{
    str_of(v.get(key))
}

/// What `serde_json::to_string` gives for the value with this view: its
/// compact JSON text, or `None` when serialization fails. (Each number's
/// text is first read back with `serde_json::from_str`, so the number is
/// written as `serde_json` renders it; both steps depend on the view
/// alone.)
pub uninterp spec fn compact_json(v: JsonView) -> Option<Seq<char>>;

/// `serde_json::to_string` on the value: its compact JSON text, or `None`
/// when serialization fails.
#[verifier::external_body]
fn compact_json_text(v: &JsonValue) -> (r: Option<String>)
    ensures
        opt_chars(r) == compact_json(json_view(*v)),
{
    serde_json::to_string(&serde_value(v)).ok()
}

/// The `serde_json::Value` with the same content (a number whose text does
/// not parse becomes `null`). Nothing is stated of it: the value is opaque
/// here.
#[verifier::external_body]
fn serde_value(v: &JsonValue) -> serde_json::Value {
    match v {
        JsonValue::Null => serde_json::Value::Null,
        JsonValue::Bool(b) => serde_json::Value::Bool(*b),
        JsonValue::Number(n) => serde_json::from_str(n).unwrap_or(serde_json::Value::Null),
        JsonValue::Str(s) => serde_json::Value::String(s.clone()),
        JsonValue::Array(a) => serde_json::Value::Array(a.iter().map(serde_value).collect()),
        JsonValue::Object(m) => serde_json::Value::Object(
            m.iter().map(|(k, x)| (k.clone(), serde_value(x))).collect(),
        ),
    }
}

// ---------------------------------------------------------------------------
// Types
// ---------------------------------------------------------------------------
/// What the policy reads from a tool call's JSON arguments.
#[derive(Debug, Clone, PartialEq, Eq)]
pub struct ToolArgs {
    /// `args["path"]` when it is a string.
    pub path: Option<String>,
    /// `args["command"]` when it is a string.
    pub command: Option<String>,
    /// The compact JSON text of the whole argument object.
    pub json: String,
}

impl ToolArgs {
    /// Extract the fields the policy reads from a JSON argument value. The
    /// JSON text is `"?"` when serialization fails.
    pub fn from_json(v: &JsonValue) -> (r: ToolArgs)
        ensures
            opt_chars(r.path) == str_member(json_view(*v), "path"@),
            opt_chars(r.command) == str_member(json_view(*v), "command"@),
            r.json@ == match compact_json(json_view(*v)) {
                Some(t) => t,
                None => "?"@,
            },
    {
        let path = str_member_exec(v, "path");
        let command = str_member_exec(v, "command");
        let json = match compact_json_text(v) {
            Some(s) => s,
            None => String::from_str("?"),
        };
        ToolArgs { path, command, json }
    }
}

/// Outcome of evaluating a tool call against the policy.
#[derive(Debug, Clone, PartialEq, Eq)]
pub enum Verdict {
    /// Run the tool without prompting.
    Allow,
    /// Pause the turn and ask the user.
    Ask {
        /// Short, human-readable description for the modal.
        summary: String,
    },
    /// Refuse the call; `reason` flows back to the model.
    Deny {
        /// Why the policy denied the call.
        reason: String,
    },
}

/// A verdict as a mathematical value.
pub enum VerdictModel {
    /// Allowed.
    Allow,
    /// Ask, with the summary.
    Ask(Seq<char>),
    /// Deny, with the reason.
    Deny(Seq<char>),
}

impl Verdict {
    /// The model of the verdict.
    pub open spec fn model(&self) -> VerdictModel {
        match self {
            Verdict::Allow => VerdictModel::Allow,
            Verdict::Ask { summary } => VerdictModel::Ask(summary@),
            Verdict::Deny { reason } => VerdictModel::Deny(reason@),
        }
    }
}

/// Allow or deny, as decided for a call that needed confirmation.
#[derive(Debug, Clone, Copy, PartialEq, Eq)]
pub enum PermissionDecision {
    /// Run the tool this once.
    Allow,
    /// Refuse this call.
    Deny,
}

/// A normalized argument pattern attached to a [`Rule`].
#[derive(Debug, Clone, PartialEq, Eq)]
pub enum ArgPattern {
    /// Matches any args for this tool.
    Any,
    /// Matches `args["path"]` by component-wise path prefix.
    Path(String),
    /// Matches the first whitespace-separated token of `args["command"]`.
    Command(String),
}

/// The model of a pattern.
pub enum PatternModel {
    /// Any args.
    Any,
    /// A path prefix.
    Path(Seq<char>),
    /// A first command token.
    Command(Seq<char>),
}

impl ArgPattern {
    /// The model of the pattern.
    pub open spec fn model(&self) -> PatternModel {
        match self {
            ArgPattern::Any => PatternModel::Any,
            ArgPattern::Path(p) => PatternModel::Path(p@),
            ArgPattern::Command(c) => PatternModel::Command(c@),
        }
    }
}

/// One rule resolved from a config source.
#[derive(Debug, Clone, PartialEq, Eq)]
pub struct Rule {
    /// Tool the rule applies to.
    pub tool_name: String,
    /// Which calls the rule matches.
    pub pattern: ArgPattern,
    /// What to do on a match.
    pub decision: PermissionDecision,
}

/// The model of a rule.
pub type RuleModel = (Seq<char>, PatternModel, PermissionDecision);

impl Rule {
    /// The model of the rule.
    pub open spec fn model(&self) -> RuleModel {
        (self.tool_name@, self.pattern.model(), self.decision)
    }
}

/// The models of a rule list.
pub open spec fn rules_model(v: Seq<Rule>) -> Seq<RuleModel> {
    v.map_values(|r: Rule| r.model())
}

/// Wire format of a rule on disk (TOML and front-matter share it).
#[derive(Debug, Clone, Default, PartialEq, Eq)]
pub struct SerializableRule {
    /// Tool this rule scopes to.
    pub tool: String,
    /// Path pattern; mutually exclusive with `command`.
    pub path: Option<String>,
    /// First-word command pattern; mutually exclusive with `path`.
    pub command: Option<String>,
}

/// On-disk shape of the user's permissions file.
#[derive(Debug, Clone, Default, PartialEq, Eq)]
pub struct PermissionsToml {
    /// Allow rules, first match wins.
    pub allow: Vec<SerializableRule>,
    /// Deny rules, first match wins.
    pub deny: Vec<SerializableRule>,
}

/// Permissions section of the project file's front-matter.
#[derive(Debug, Clone, Default, PartialEq, Eq)]
pub struct FrontMatterPermissions {
    /// Allow rules.
    pub allow: Vec<SerializableRule>,
    /// Deny rules.
    pub deny: Vec<SerializableRule>,
}

/// Layered permission policy.
#[derive(Debug)]
pub struct PermissionPolicy {
    project_root: String,
    front_matter_rules: Vec<Rule>,
    toml_path: Option<String>,
    toml_rules: Vec<Rule>,
}

// ---------------------------------------------------------------------------
// Specification
// ---------------------------------------------------------------------------
/// Width of a character in UTF-8.
pub open spec fn utf8_width(c: char) -> int {
    let u = c as u32;
    if u <= 0x7f {
        1
    } else if u <= 0x7ff {
        2
    } else if u <= 0xffff {
        3
    } else {
        4
    }
}

/// Length of `s` in UTF-8 bytes.
pub open spec fn byte_len(s: Seq<char>) -> int
    decreases s.len(),
{
    if s.len() == 0 {
        0
    } else {
        utf8_width(s[0]) + byte_len(s.drop_first())
    }
}

/// Number of leading characters of `s` that fit in `limit` bytes.
pub open spec fn chars_within(s: Seq<char>, limit: int) -> int
    decreases s.len(),
{
    if s.len() == 0 || utf8_width(s[0]) > limit {
        0
    } else {
        1 + chars_within(s.drop_first(), limit - utf8_width(s[0]))
    }
}

/// Byte 80 of the JSON text is a character boundary (or the text is no
/// longer than 80 bytes), so cutting it there does not panic.
pub open spec fn short_args_ok(j: Seq<char>) -> bool {
    byte_len(j) <= 80 || byte_len(j.take(chars_within(j, 80))) == 80
}

/// The argument JSON as shown in messages: the whole text when it is at
/// most 80 bytes, else its first 80 bytes followed by `...`.
pub open spec fn short_args_spec(j: Seq<char>) -> Seq<char> {
    if byte_len(j) <= 80 {
        j
    } else {
        j.take(chars_within(j, 80)) + "..."@
    }
}

/// The sensitive-path floor of the policy: every path the shared
/// sensitive-path test flags (dotenv files anywhere, `.ssh`, `.aws`,
/// `.gnupg`, `.netrc`, `.config/gh`, browser profiles, ...).
pub open spec fn floor_sensitive(p: Seq<char>) -> bool {
    is_sensitive_spec(p)
}

/// Does the pattern match the arguments?
pub open spec fn pattern_matches(p: PatternModel, a: ToolArgs) -> bool {
    match p {
        PatternModel::Any => true,
        PatternModel::Path(want) => match a.path {
            Some(x) => path_starts_with(x@, want),
            None => false,
        },
        PatternModel::Command(want) => match a.command {
            Some(c) => first_token(c@) == Some(want),
            None => false,
        },
    }
}

/// Does the rule apply to this call?
pub open spec fn rule_hits(r: RuleModel, tool: Seq<char>, a: ToolArgs) -> bool {
    r.0 == tool && pattern_matches(r.1, a)
}

/// The decision of the first rule that applies.
pub open spec fn match_first(rules: Seq<RuleModel>, tool: Seq<char>, a: ToolArgs) -> Option<
    PermissionDecision,
>
    decreases rules.len(),
{
    if rules.len() == 0 {
        None
    } else if rule_hits(rules[0], tool, a) {
        Some(rules[0].2)
    } else {
        match_first(rules.drop_first(), tool, a)
    }
}

/// The verdict a matched rule yields.
pub open spec fn decision_verdict(
    d: PermissionDecision,
    tool: Seq<char>,
    a: ToolArgs,
    source: Seq<char>,
) -> VerdictModel {
    match d {
        PermissionDecision::Allow => VerdictModel::Allow,
        PermissionDecision::Deny => VerdictModel::Deny(
            "denied by "@ + source + " for "@ + tool + " "@ + short_args_spec(a.json@),
        ),
    }
}

/// The summary shown for a `run` call: at most 80 characters of the command.
pub open spec fn command_summary(a: ToolArgs) -> Seq<char> {
    match a.command {
        Some(c) => "run: "@ + c@.take(if c@.len() < 80 { c@.len() as int } else { 80 }),
        None => "run"@,
    }
}

/// Tools the defaults treat as read-only.
pub open spec fn is_read_tool(tool: Seq<char>) -> bool {
    tool == "read_file"@ || tool == "list_dir"@ || tool == "glob"@
}

/// The built-in defaults.
pub open spec fn default_verdict_spec(root: Seq<char>, tool: Seq<char>, a: ToolArgs) -> VerdictModel {
    if is_read_tool(tool) {
        VerdictModel::Allow
    } else if tool == "write_file"@ {
        match a.path {
            Some(p) => if is_under_spec(p@, root) {
                VerdictModel::Allow
            } else {
                VerdictModel::Ask("write_file outside project root: "@ + p@)
            },
            None => VerdictModel::Ask("write_file with no path"@),
        }
    } else if tool == "run"@ {
        VerdictModel::Ask(command_summary(a))
    } else {
        VerdictModel::Ask(tool + "("@ + short_args_spec(a.json@) + ")"@)
    }
}

/// The layered verdict.
pub open spec fn evaluate_spec(
    root: Seq<char>,
    front: Seq<RuleModel>,
    toml: Seq<RuleModel>,
    tool: Seq<char>,
    a: ToolArgs,
) -> VerdictModel {
    match a.path {
        Some(p) if floor_sensitive(p@) => VerdictModel::Deny(
            "path `"@ + p@ + "` is policy-protected (.env / .ssh)"@,
        ),
        _ => match match_first(front, tool, a) {
            Some(d) => decision_verdict(d, tool, a, "SAVVAGENT.md"@),
            None => match match_first(toml, tool, a) {
                Some(d) => decision_verdict(d, tool, a, "permissions.toml"@),
                None => default_verdict_spec(root, tool, a),
            },
        },
    }
}

/// Evaluation shortens the argument JSON (which panics when byte 80 is
/// inside a character).
pub open spec fn evaluate_shortens_args(
    front: Seq<RuleModel>,
    toml: Seq<RuleModel>,
    tool: Seq<char>,
    a: ToolArgs,
) -> bool {
    let floor = match a.path {
        Some(p) => floor_sensitive(p@),
        None => false,
    };
    !floor && match match_first(front, tool, a) {
        Some(d) => d == PermissionDecision::Deny,
        None => match match_first(toml, tool, a) {
            Some(d) => d == PermissionDecision::Deny,
            None => !is_read_tool(tool) && tool != "write_file"@ && tool != "run"@,
        },
    }
}

/// The pattern recorded for a user's Always/Never answer.
pub open spec fn for_call_spec(tool: Seq<char>, a: ToolArgs) -> PatternModel {
    if tool == "read_file"@ || tool == "write_file"@ || tool == "list_dir"@ || tool == "glob"@ {
        match a.path {
            Some(p) => PatternModel::Path(p@),
            None => PatternModel::Any,
        }
    } else if tool == "run"@ {
        match a.command {
            Some(c) => match first_token(c@) {
                Some(w) => PatternModel::Command(w),
                None => PatternModel::Any,
            },
            None => PatternModel::Any,
        }
    } else {
        PatternModel::Any
    }
}

/// `rules` without the ones keyed on `(tool, pat)`.
pub open spec fn without_key(rules: Seq<RuleModel>, tool: Seq<char>, pat: PatternModel) -> Seq<
    RuleModel,
>
    decreases rules.len(),
{
    if rules.len() == 0 {
        Seq::empty()
    } else {
        let rest = without_key(rules.drop_last(), tool, pat);
        if rules.last().0 == tool && rules.last().1 == pat {
            rest
        } else {
            rest.push(rules.last())
        }
    }
}

/// The rule a serialized entry normalizes to.
pub open spec fn from_serializable_spec(s: SerializableRule, d: PermissionDecision) -> RuleModel {
    let pat = match s.path {
        Some(p) => PatternModel::Path(p@),
        None => match s.command {
            Some(c) => PatternModel::Command(c@),
            None => PatternModel::Any,
        },
    };
    (s.tool@, pat, d)
}

/// The rule list read back from an allow list and a deny list.
pub open spec fn rules_from_permissions_spec(
    allow: Seq<SerializableRule>,
    deny: Seq<SerializableRule>,
) -> Seq<RuleModel> {
    allow.map_values(|s: SerializableRule| from_serializable_spec(s, PermissionDecision::Allow))
        + deny.map_values(|s: SerializableRule| from_serializable_spec(s, PermissionDecision::Deny))
}

/// The rules of one decision kind, in order.
pub open spec fn rules_of_decision(rules: Seq<RuleModel>, d: PermissionDecision) -> Seq<RuleModel>
    decreases rules.len(),
{
    if rules.len() == 0 {
        Seq::empty()
    } else {
        let rest = rules_of_decision(rules.drop_last(), d);
        if rules.last().2 == d {
            rest.push(rules.last())
        } else {
            rest
        }
    }
}

impl PermissionPolicy {
    /// The project root used by the `write_file` default.
    pub closed spec fn spec_root(&self) -> Seq<char> {
        self.project_root@
    }

    /// The project's front-matter rules.
    pub closed spec fn spec_front(&self) -> Seq<RuleModel> {
        rules_model(self.front_matter_rules@)
    }

    /// The persisted rules.
    pub closed spec fn spec_toml(&self) -> Seq<RuleModel> {
        rules_model(self.toml_rules@)
    }

    /// Where the persisted rules are written, if anywhere.
    pub closed spec fn spec_toml_path(&self) -> Option<Seq<char>> {
        match self.toml_path {
            Some(p) => Some(p@),
            None => None,
        }
    }
}

// ---------------------------------------------------------------------------
// Lemmas
// ---------------------------------------------------------------------------
proof fn lemma_byte_len_push(s: Seq<char>, c: char)
    ensures
        byte_len(s.push(c)) == byte_len(s) + utf8_width(c),
    decreases s.len(),
{
    assert(s.push(c)[0] == if s.len() > 0 { s[0] } else { c });
    if s.len() > 0 {
        lemma_byte_len_push(s.drop_first(), c);
        assert(s.push(c).drop_first() =~= s.drop_first().push(c));
    } else {
        assert(s.push(c).drop_first() =~= Seq::<char>::empty());
        assert(byte_len(Seq::<char>::empty()) == 0);
    }
}

proof fn lemma_chars_within_all(s: Seq<char>, limit: int)
    requires
        limit >= 0,
    ensures
        (chars_within(s, limit) == s.len()) == (byte_len(s) <= limit),
        0 <= chars_within(s, limit) <= s.len(),
    decreases s.len(),
{
    if s.len() > 0 {
        if utf8_width(s[0]) <= limit {
            lemma_chars_within_all(s.drop_first(), limit - utf8_width(s[0]));
        } else {
            lemma_byte_len_nonneg(s.drop_first());
        }
    }
}

proof fn lemma_byte_len_nonneg(s: Seq<char>)
    ensures
        byte_len(s) >= 0,
    decreases s.len(),
{
    if s.len() > 0 {
        lemma_byte_len_nonneg(s.drop_first());
    }
}

proof fn lemma_chars_within_skip(s: Seq<char>, i: int, limit: int, b: int)
    requires
        0 <= i < s.len(),
        b == byte_len(s.take(i)),
        chars_within(s, limit) == i + chars_within(s.skip(i), limit - b),
        b + utf8_width(s[i]) <= limit,
    ensures
        chars_within(s, limit) == (i + 1) + chars_within(
            s.skip(i + 1),
            limit - (b + utf8_width(s[i])),
        ),
        byte_len(s.take(i + 1)) == b + utf8_width(s[i]),
{
    assert(s.skip(i)[0] == s[i]);
    assert(s.skip(i).drop_first() =~= s.skip(i + 1));
    assert(s.take(i + 1) =~= s.take(i).push(s[i]));
    lemma_byte_len_push(s.take(i), s[i]);
}

/// Matching one more rule at the front.
proof fn lemma_match_first_skip(rules: Seq<RuleModel>, tool: Seq<char>, a: ToolArgs, i: int)
    requires
        0 <= i < rules.len(),
        !rule_hits(rules[i], tool, a),
        match_first(rules, tool, a) == match_first(rules.skip(i), tool, a),
    ensures
        match_first(rules, tool, a) == match_first(rules.skip(i + 1), tool, a),
{
    assert(rules.skip(i)[0] == rules[i]);
    assert(rules.skip(i).drop_first() =~= rules.skip(i + 1));
}

// ---------------------------------------------------------------------------
// Implementation
// ---------------------------------------------------------------------------
/// Equality of a `&str` with a literal.
fn str_is(s: &[char], lit: &str) -> (r: bool)
    ensures
        r == (s@ == lit@),
{
    let l = chars_of(lit);
    seq_eq(s, &l)
}

/// The argument JSON as shown in messages (see [`short_args_spec`]).
pub fn short_args(json: &str) -> (r: String)
    requires
        short_args_ok(json@),
    ensures
        r@ == short_args_spec(json@),
{
    let j = chars_of(json);
    let n = j.len();
    let mut i: usize = 0;
    let mut b: usize = 0;
    proof {
        lemma_chars_within_all(j@, 80);
        assert(j@.skip(0) =~= j@);
        assert(j@.take(0) =~= Seq::<char>::empty());
    }
    while i < n && b + char_width(j[i]) <= 80
        invariant
            i <= n == j@.len(),
            j@ == json@,
            b <= 80,
            b == byte_len(j@.take(i as int)),
            chars_within(j@, 80) == i + chars_within(j@.skip(i as int), 80 - b),
        decreases n - i,
    {
        proof {
            lemma_chars_within_skip(j@, i as int, 80, b as int);
        }
        b = b + char_width(j[i]);
        i = i + 1;
    }
    proof {
        if i < n {
            assert(j@.skip(i as int)[0] == j@[i as int]);
        } else {
            assert(j@.skip(i as int) =~= Seq::<char>::empty());
        }
        assert(chars_within(j@, 80) == i);
        lemma_chars_within_all(j@, 80);
    }
    if i == n {
        assert(j@.take(n as int) =~= j@);
        String::from_str(json)
    } else {
        let head = string_from_range(&j, 0, i);
        assert(j@.subrange(0, i as int) =~= j@.take(i as int));
        concat2(head.as_str(), "...")
    }
}

/// Whether the argument JSON can be shown in messages: it fits in 80
/// bytes, or byte 80 falls between two characters.
pub fn args_display_ok(json: &str) -> (r: bool)
    ensures
        r == short_args_ok(json@),
{
    let j = chars_of(json);
    let n = j.len();
    let mut i: usize = 0;
    let mut b: usize = 0;
    proof {
        lemma_chars_within_all(j@, 80);
        assert(j@.skip(0) =~= j@);
        assert(j@.take(0) =~= Seq::<char>::empty());
    }
    while i < n && b + char_width(j[i]) <= 80
        invariant
            i <= n == j@.len(),
            j@ == json@,
            b <= 80,
            b == byte_len(j@.take(i as int)),
            chars_within(j@, 80) == i + chars_within(j@.skip(i as int), 80 - b),
        decreases n - i,
    {
        proof {
            lemma_chars_within_skip(j@, i as int, 80, b as int);
        }
        b = b + char_width(j[i]);
        i = i + 1;
    }
    proof {
        if i < n {
            assert(j@.skip(i as int)[0] == j@[i as int]);
        } else {
            assert(j@.skip(i as int) =~= Seq::<char>::empty());
        }
        assert(chars_within(j@, 80) == i);
        lemma_chars_within_all(j@, 80);
        if i < n {
            lemma_byte_len_prefix_grows(j@, i as int);
        } else {
            assert(j@.take(n as int) =~= j@);
        }
    }
    i == n || b == 80
}

/// Taking one more character adds its width to the byte length, and the
/// whole sequence is at least as long as any prefix.
proof fn lemma_byte_len_prefix_grows(j: Seq<char>, i: int)
    requires
        0 <= i < j.len(),
    ensures
        byte_len(j) >= byte_len(j.take(i)) + utf8_width(j[i]),
{
    assert(j =~= j.take(i + 1) + j.skip(i + 1));
    lemma_byte_len_concat(j.take(i + 1), j.skip(i + 1));
    assert(j.take(i + 1) =~= j.take(i).push(j[i]));
    lemma_byte_len_push(j.take(i), j[i]);
    lemma_byte_len_nonneg(j.skip(i + 1));
}

/// Byte length adds up over concatenation.
proof fn lemma_byte_len_concat(a: Seq<char>, b: Seq<char>)
    ensures
        byte_len(a + b) == byte_len(a) + byte_len(b),
    decreases a.len(),
{
    if a.len() > 0 {
        lemma_byte_len_concat(a.drop_first(), b);
        assert((a + b).drop_first() =~= a.drop_first() + b);
        assert((a + b)[0] == a[0]);
    } else {
        assert(a + b =~= b);
    }
}

/// UTF-8 width of a character.
fn char_width(c: char) -> (w: usize)
    ensures
        w == utf8_width(c),
{
    let u = c as u32;
    if u <= 0x7f {
        1
    } else if u <= 0x7ff {
        2
    } else if u <= 0xffff {
        3
    } else {
        4
    }
}

/// The sensitive-path floor.
fn is_floor_sensitive(p: &str) -> (r: bool)
    ensures
        r == floor_sensitive(p@),
{
    is_sensitive_path(p)
}

impl ArgPattern {
    /// Build the pattern recording a user's Always/Never answer: the exact
    /// path for filesystem tools, the first command token for `run`.
    pub fn for_call(tool_name: &str, args: &ToolArgs) -> (p: ArgPattern)
        ensures
            p.model() == for_call_spec(tool_name@, *args),
    {
        let t = chars_of(tool_name);
        if str_is(&t, "read_file") || str_is(&t, "write_file") || str_is(&t, "list_dir") || str_is(
            &t,
            "glob",
        ) {
            match &args.path {
                Some(p) => ArgPattern::Path(p.clone()),
                None => ArgPattern::Any,
            }
        } else if str_is(&t, "run") {
            match &args.command {
                Some(c) => {
                    let cc = chars_of(c.as_str());
                    match first_token_exec(&cc) {
                        Some(w) => ArgPattern::Command(string_from(&w)),
                        None => ArgPattern::Any,
                    }
                },
                None => ArgPattern::Any,
            }
        } else {
            ArgPattern::Any
        }
    }

    /// Does this pattern match the arguments?
    pub fn matches(&self, args: &ToolArgs) -> (r: bool)
        ensures
            r == pattern_matches(self.model(), *args),
    {
        match self {
            ArgPattern::Any => true,
            ArgPattern::Path(want) => match &args.path {
                Some(p) => starts_with_path(p.as_str(), want.as_str()),
                None => false,
            },
            ArgPattern::Command(want) => match &args.command {
                Some(c) => {
                    let cc = chars_of(c.as_str());
                    match first_token_exec(&cc) {
                        Some(w) => {
                            let wc = chars_of(want.as_str());
                            seq_eq(&w, &wc)
                        },
                        None => false,
                    }
                },
                None => false,
            },
        }
    }

    /// A copy of the pattern.
    pub fn duplicate(&self) -> (r: ArgPattern)
        ensures
            r.model() == self.model(),
    {
        match self {
            ArgPattern::Any => ArgPattern::Any,
            ArgPattern::Path(p) => ArgPattern::Path(p.clone()),
            ArgPattern::Command(c) => ArgPattern::Command(c.clone()),
        }
    }

    /// Do two patterns have the same model?
    pub fn same_as(&self, other: &ArgPattern) -> (r: bool)
        ensures
            r == (self.model() == other.model()),
    {
        match (self, other) {
            (ArgPattern::Any, ArgPattern::Any) => true,
            (ArgPattern::Path(a), ArgPattern::Path(b)) => *a == *b,
            (ArgPattern::Command(a), ArgPattern::Command(b)) => *a == *b,
            _ => false,
        }
    }
}

impl Rule {
    /// A copy of the rule.
    pub fn duplicate(&self) -> (r: Rule)
        ensures
            r.model() == self.model(),
    {
        Rule {
            tool_name: self.tool_name.clone(),
            pattern: self.pattern.duplicate(),
            decision: self.decision,
        }
    }
}

/// A copy of a rule list.
fn duplicate_rules(v: &Vec<Rule>) -> (r: Vec<Rule>)
    ensures
        rules_model(r@) == rules_model(v@),
{
    let mut out: Vec<Rule> = Vec::new();
    let n = v.len();
    for i in 0..n
        invariant
            n == v@.len(),
            rules_model(out@) == rules_model(v@.take(i as int)),
    {
        out.push(v[i].duplicate());
        assert(rules_model(v@.take(i + 1)) =~= rules_model(v@.take(i as int)).push(
            v@[i as int].model(),
        ));
    }
    assert(v@.take(n as int) =~= v@);
    out
}

/// The decision of the first rule in `rules` that applies.
fn match_first_exec(rules: &Vec<Rule>, tool_name: &String, args: &ToolArgs) -> (r: Option<
    PermissionDecision,
>)
    ensures
        r == match_first(rules_model(rules@), tool_name@, *args),
{
    let ghost m = rules_model(rules@);
    let n = rules.len();
    assert(m.skip(0) =~= m);
    for i in 0..n
        invariant
            n == rules@.len(),
            m == rules_model(rules@),
            match_first(m, tool_name@, *args) == match_first(m.skip(i as int), tool_name@, *args),
    {
        let r = &rules[i];
        assert(m[i as int] == r.model());
        if r.tool_name == *tool_name && r.pattern.matches(args) {
            assert(m.skip(i as int)[0] == m[i as int]);
            return Some(r.decision);
        }
        proof {
            lemma_match_first_skip(m, tool_name@, *args, i as int);
        }
    }
    assert(m.skip(n as int) =~= Seq::<RuleModel>::empty());
    None
}

/// Normalize a serialized entry: `path` wins over `command`; neither means
/// any arguments.
pub fn from_serializable(s: SerializableRule, decision: PermissionDecision) -> (r: Rule)
    ensures
        r.model() == from_serializable_spec(s, decision),
{
    let pattern = if let Some(p) = s.path {
        ArgPattern::Path(p)
    } else if let Some(c) = s.command {
        ArgPattern::Command(c)
    } else {
        ArgPattern::Any
    };
    Rule { tool_name: s.tool, pattern, decision }
}

/// The serialized form of a rule (its decision is carried by the list it
/// is written to).
pub fn to_serializable(r: &Rule) -> (s: SerializableRule)
    ensures
        s.tool@ == r.tool_name@,
        match r.pattern {
            ArgPattern::Path(p) => s.command is None && (s.path matches Some(x) && x@ == p@),
            ArgPattern::Command(c) => s.path is None && (s.command matches Some(x) && x@ == c@),
            ArgPattern::Any => s.path is None && s.command is None,
        },
{
    let (path, command) = match &r.pattern {
        ArgPattern::Path(p) => (Some(p.clone()), None),
        ArgPattern::Command(c) => (None, Some(c.clone())),
        ArgPattern::Any => (None, None),
    };
    SerializableRule { tool: r.tool_name.clone(), path, command }
}

/// The rule list for an allow list and a deny list: all allow rules, in
/// order, then all deny rules, in order.
pub fn rules_from_permissions(allow: Vec<SerializableRule>, deny: Vec<SerializableRule>) -> (r: Vec<
    Rule,
>)
    ensures
        rules_model(r@) == rules_from_permissions_spec(allow@, deny@),
        r@.len() == allow@.len() + deny@.len(),
        forall|i: int|
            0 <= i < allow@.len() ==> #[trigger] r@[i].model() == from_serializable_spec(
                allow@[i],
                PermissionDecision::Allow,
            ),
        forall|i: int|
            0 <= i < deny@.len() ==> #[trigger] r@[allow@.len() + i].model()
                == from_serializable_spec(deny@[i], PermissionDecision::Deny),
{
    let mut out: Vec<Rule> = Vec::new();
    let na = allow.len();
    let nd = deny.len();
    let mut allow = allow;
    let mut deny = deny;
    let ghost a0 = allow@;
    let ghost d0 = deny@;
    let mut i: usize = 0;
    while i < na
        invariant
            na == a0.len(),
            allow@ == a0,
            i <= na,
            out@.len() == i,
            forall|k: int|
                0 <= k < i ==> #[trigger] out@[k].model() == from_serializable_spec(
                    a0[k],
                    PermissionDecision::Allow,
                ),
        decreases na - i,
    {
        let s = SerializableRule {
            tool: allow[i].tool.clone(),
            path: clone_opt(&allow[i].path),
            command: clone_opt(&allow[i].command),
        };
        out.push(from_serializable(s, PermissionDecision::Allow));
        i = i + 1;
    }
    let mut j: usize = 0;
    while j < nd
        invariant
            na == a0.len(),
            nd == d0.len(),
            deny@ == d0,
            j <= nd,
            out@.len() == na + j,
            forall|k: int|
                0 <= k < na ==> #[trigger] out@[k].model() == from_serializable_spec(
                    a0[k],
                    PermissionDecision::Allow,
                ),
            forall|k: int|
                0 <= k < j ==> #[trigger] out@[na + k].model() == from_serializable_spec(
                    d0[k],
                    PermissionDecision::Deny,
                ),
        decreases nd - j,
    {
        let s = SerializableRule {
            tool: deny[j].tool.clone(),
            path: clone_opt(&deny[j].path),
            command: clone_opt(&deny[j].command),
        };
        out.push(from_serializable(s, PermissionDecision::Deny));
        assert(out@[na + j as int].model() == from_serializable_spec(
            d0[j as int],
            PermissionDecision::Deny,
        ));
        j = j + 1;
    }
    proof {
        let spec_r = rules_from_permissions_spec(a0, d0);
        assert forall|k: int| 0 <= k < out@.len() implies #[trigger] rules_model(out@)[k]
            == spec_r[k] by {
            if k < na {
                assert(out@[k].model() == from_serializable_spec(a0[k], PermissionDecision::Allow));
            } else {
                let kk = k - na;
                assert(out@[na + kk].model() == from_serializable_spec(
                    d0[kk],
                    PermissionDecision::Deny,
                ));
            }
        }
        assert(rules_model(out@) =~= spec_r);
    }
    out
}

fn clone_opt(o: &Option<String>) -> (r: Option<String>)
    ensures
        r == *o,
{
    match o {
        Some(s) => Some(s.clone()),
        None => None,
    }
}

/// Split rules into the on-disk allow and deny lists, keeping their order.
pub fn permissions_from_rules(rules: &[Rule]) -> (p: PermissionsToml)
    ensures
        p.allow@.map_values(|s: SerializableRule| from_serializable_spec(s, PermissionDecision::Allow))
            == rules_of_decision(rules_model(rules@), PermissionDecision::Allow),
        p.deny@.map_values(|s: SerializableRule| from_serializable_spec(s, PermissionDecision::Deny))
            == rules_of_decision(rules_model(rules@), PermissionDecision::Deny),
{
    let mut allow: Vec<SerializableRule> = Vec::new();
    let mut deny: Vec<SerializableRule> = Vec::new();
    let n = rules.len();
    for i in 0..n
        invariant
            n == rules@.len(),
            allow@.map_values(|s: SerializableRule| from_serializable_spec(s, PermissionDecision::Allow))
                == rules_of_decision(rules_model(rules@.take(i as int)), PermissionDecision::Allow),
            deny@.map_values(|s: SerializableRule| from_serializable_spec(s, PermissionDecision::Deny))
                == rules_of_decision(rules_model(rules@.take(i as int)), PermissionDecision::Deny),
    {
        let r = &rules[i];
        let s = to_serializable(r);
        let ghost ra = allow@;
        let ghost rd = deny@;
        assert(rules_model(rules@.take(i + 1)) =~= rules_model(rules@.take(i as int)).push(
            r.model(),
        ));
        assert(rules_model(rules@.take(i + 1)).drop_last() =~= rules_model(rules@.take(i as int)));
        match r.decision {
            PermissionDecision::Allow => {
                allow.push(s);
                assert(allow@.map_values(|s: SerializableRule| from_serializable_spec(s, PermissionDecision::Allow))
                    =~= ra.map_values(|s: SerializableRule| from_serializable_spec(s, PermissionDecision::Allow)).push(
                    r.model(),
                ));
                assert(deny@ == rd);
            },
            PermissionDecision::Deny => {
                deny.push(s);
                assert(deny@.map_values(|s: SerializableRule| from_serializable_spec(s, PermissionDecision::Deny))
                    =~= rd.map_values(|s: SerializableRule| from_serializable_spec(s, PermissionDecision::Deny)).push(
                    r.model(),
                ));
                assert(allow@ == ra);
            },
        }
    }
    assert(rules@.take(n as int) =~= rules@);
    PermissionsToml { allow, deny }
}

impl PermissionPolicy {
    /// A policy that neither reads nor writes any file: both rule sets
    /// start empty.
    pub fn transient(project_root: &str) -> (p: Self)
        ensures
            p.spec_root() == project_root@,
            p.spec_front() == Seq::<RuleModel>::empty(),
            p.spec_toml() == Seq::<RuleModel>::empty(),
            p.spec_toml_path() is None,
    {
        let p = PermissionPolicy {
            project_root: String::from_str(project_root),
            front_matter_rules: Vec::new(),
            toml_path: None,
            toml_rules: Vec::new(),
        };
        assert(rules_model(p.front_matter_rules@) =~= Seq::<RuleModel>::empty());
        assert(rules_model(p.toml_rules@) =~= Seq::<RuleModel>::empty());
        p
    }

    /// A policy from already-loaded parts: the project root, the
    /// front-matter rules, where persisted rules are written, and the
    /// persisted rules.
    pub fn from_parts(
        project_root: String,
        front_matter_rules: Vec<Rule>,
        toml_path: Option<String>,
        toml_rules: Vec<Rule>,
    ) -> (p: Self)
        ensures
            p.spec_root() == project_root@,
            p.spec_front() == rules_model(front_matter_rules@),
            p.spec_toml() == rules_model(toml_rules@),
            p.spec_toml_path() == match toml_path {
                Some(s) => Some(s@),
                None => None::<Seq<char>>,
            },
    {
        PermissionPolicy { project_root, front_matter_rules, toml_path, toml_rules }
    }

    /// The default policy for `project_root` from what was loaded: the
    /// project file's front-matter permissions, where persisted rules live
    /// (`None` when no home directory is known), and the persisted rules
    /// file (`None` when it is missing or unreadable, which leaves no
    /// persisted rules).
    pub fn default_for(
        project_root: String,
        front_matter: FrontMatterPermissions,
        toml_path: Option<String>,
        toml_file: Option<PermissionsToml>,
    ) -> (p: Self)
        ensures
            p.spec_root() == project_root@,
            p.spec_front() == rules_from_permissions_spec(front_matter.allow@, front_matter.deny@),
            p.spec_toml() == match toml_file {
                Some(f) => rules_from_permissions_spec(f.allow@, f.deny@),
                None => Seq::<RuleModel>::empty(),
            },
            p.spec_toml_path() == match toml_path {
                Some(s) => Some(s@),
                None => None::<Seq<char>>,
            },
    {
        let front = rules_from_permissions(front_matter.allow, front_matter.deny);
        let toml = match toml_file {
            Some(f) => rules_from_permissions(f.allow, f.deny),
            None => {
                let v: Vec<Rule> = Vec::new();
                assert(rules_model(v@) =~= Seq::<RuleModel>::empty());
                v
            },
        };
        PermissionPolicy { project_root, front_matter_rules: front, toml_path, toml_rules: toml }
    }

    /// Resolve a verdict for a tool call (see the module docs for the
    /// layering).
    pub fn evaluate(&self, tool_name: &str, args: &ToolArgs) -> (v: Verdict)
        requires
            evaluate_shortens_args(self.spec_front(), self.spec_toml(), tool_name@, *args)
                ==> short_args_ok(args.json@),
        ensures
            v.model() == evaluate_spec(
                self.spec_root(),
                self.spec_front(),
                self.spec_toml(),
                tool_name@,
                *args,
            ),
    {
        // 1. Sensitive-path floor.
        if let Some(p) = &args.path {
            if is_floor_sensitive(p.as_str()) {
                return Verdict::Deny {
                    reason: concat3("path `", p.as_str(), "` is policy-protected (.env / .ssh)"),
                };
            }
        }
        let tool = String::from_str(tool_name);
        // 2. Front-matter rules.
        if let Some(d) = match_first_exec(&self.front_matter_rules, &tool, args) {
            return Self::decision_to_verdict(d, tool_name, args, "SAVVAGENT.md");
        }
        // 3. Persisted rules.
        if let Some(d) = match_first_exec(&self.toml_rules, &tool, args) {
            return Self::decision_to_verdict(d, tool_name, args, "permissions.toml");
        }
        // 4. Built-in defaults.
        self.default_verdict(tool_name, args)
    }

    /// Resolve a verdict for a tool call, or `None` when the verdict's
    /// message would have to cut the argument JSON at byte 80 inside a
    /// character (where [`Self::evaluate`] cannot be used).
    pub fn try_evaluate(&self, tool_name: &str, args: &ToolArgs) -> (r: Option<Verdict>)
        ensures
            r is None <==> (evaluate_shortens_args(self.spec_front(), self.spec_toml(), tool_name@, *args)
                && !short_args_ok(args.json@)),
            r matches Some(v) ==> v.model() == evaluate_spec(
                self.spec_root(),
                self.spec_front(),
                self.spec_toml(),
                tool_name@,
                *args,
            ),
    {
        if !args_display_ok(args.json.as_str()) && self.shortens_args(tool_name, args) {
            None
        } else {
            Some(self.evaluate(tool_name, args))
        }
    }

    /// Whether evaluating this call shortens the argument JSON.
    fn shortens_args(&self, tool_name: &str, args: &ToolArgs) -> (r: bool)
        ensures
            r == evaluate_shortens_args(self.spec_front(), self.spec_toml(), tool_name@, *args),
    {
        if let Some(p) = &args.path {
            if is_floor_sensitive(p.as_str()) {
                return false;
            }
        }
        let tool = String::from_str(tool_name);
        if let Some(d) = match_first_exec(&self.front_matter_rules, &tool, args) {
            return matches!(d, PermissionDecision::Deny);
        }
        if let Some(d) = match_first_exec(&self.toml_rules, &tool, args) {
            return matches!(d, PermissionDecision::Deny);
        }
        let t = chars_of(tool_name);
        !(str_is(&t, "read_file") || str_is(&t, "list_dir") || str_is(&t, "glob")) && !str_is(&t, "write_file")
            && !str_is(&t, "run")
    }

    fn decision_to_verdict(
        decision: PermissionDecision,
        tool_name: &str,
        args: &ToolArgs,
        source: &str,
    ) -> (v: Verdict)
        requires
            decision == PermissionDecision::Deny ==> short_args_ok(args.json@),
        ensures
            v.model() == decision_verdict(decision, tool_name@, *args, source@),
    {
        match decision {
            PermissionDecision::Allow => Verdict::Allow,
            PermissionDecision::Deny => {
                let short = short_args(args.json.as_str());
                let head = concat3("denied by ", source, " for ");
                let mid = concat3(head.as_str(), tool_name, " ");
                Verdict::Deny { reason: concat2(mid.as_str(), short.as_str()) }
            },
        }
    }

    fn default_verdict(&self, tool_name: &str, args: &ToolArgs) -> (v: Verdict)
        requires
            !is_read_tool(tool_name@) && tool_name@ != "write_file"@ && tool_name@ != "run"@
                ==> short_args_ok(args.json@),
        ensures
            v.model() == default_verdict_spec(self.spec_root(), tool_name@, *args),
    {
        let t = chars_of(tool_name);
        if str_is(&t, "read_file") || str_is(&t, "list_dir") || str_is(&t, "glob") {
            Verdict::Allow
        } else if str_is(&t, "write_file") {
            match &args.path {
                Some(p) => if is_under(p.as_str(), self.project_root.as_str()) {
                    Verdict::Allow
                } else {
                    Verdict::Ask { summary: concat2("write_file outside project root: ", p.as_str()) }
                },
                None => Verdict::Ask { summary: String::from_str("write_file with no path") },
            }
        } else if str_is(&t, "run") {
            match &args.command {
                Some(c) => {
                    let cc = chars_of(c.as_str());
                    let k = if cc.len() < 80 {
                        cc.len()
                    } else {
                        80
                    };
                    let head = string_from_range(&cc, 0, k);
                    assert(cc@.subrange(0, k as int) =~= cc@.take(k as int));
                    Verdict::Ask { summary: concat2("run: ", head.as_str()) }
                },
                None => Verdict::Ask { summary: String::from_str("run") },
            }
        } else {
            let short = short_args(args.json.as_str());
            let head = concat2(tool_name, "(");
            Verdict::Ask { summary: concat3(head.as_str(), short.as_str(), ")") }
        }
    }

    /// Record a user's Always/Never answer in the persisted rule set: any
    /// rule with the same (tool, pattern) key is replaced by the new rule,
    /// which goes last. Returns the file contents to write through.
    pub fn record_rule(&mut self, tool_name: &str, args: &ToolArgs, decision: PermissionDecision) -> (file: PermissionsToml)
        ensures
            final(self).spec_root() == old(self).spec_root(),
            final(self).spec_front() == old(self).spec_front(),
            final(self).spec_toml_path() == old(self).spec_toml_path(),
            final(self).spec_toml() == without_key(
                old(self).spec_toml(),
                tool_name@,
                for_call_spec(tool_name@, *args),
            ).push((tool_name@, for_call_spec(tool_name@, *args), decision)),
            file.allow@.map_values(|s: SerializableRule| from_serializable_spec(s, PermissionDecision::Allow))
                == rules_of_decision(final(self).spec_toml(), PermissionDecision::Allow),
            file.deny@.map_values(|s: SerializableRule| from_serializable_spec(s, PermissionDecision::Deny))
                == rules_of_decision(final(self).spec_toml(), PermissionDecision::Deny),
    {
        let pattern = ArgPattern::for_call(tool_name, args);
        let tool = String::from_str(tool_name);
        let ghost key_pat = pattern.model();
        let mut kept: Vec<Rule> = Vec::new();
        let n = self.toml_rules.len();
        let ghost old_m = rules_model(self.toml_rules@);
        assert(rules_model(kept@) =~= without_key(old_m.take(0), tool_name@, key_pat));
        for i in 0..n
            invariant
                n == self.toml_rules@.len(),
                old_m == rules_model(self.toml_rules@),
                tool@ == tool_name@,
                key_pat == pattern.model(),
                rules_model(kept@) == without_key(old_m.take(i as int), tool_name@, key_pat),
        {
            let r = &self.toml_rules[i];
            assert(old_m.take(i + 1).drop_last() =~= old_m.take(i as int));
            assert(old_m.take(i + 1).last() == r.model());
            if !(r.tool_name == tool && r.pattern.same_as(&pattern)) {
                let ghost before = rules_model(kept@);
                kept.push(r.duplicate());
                assert(rules_model(kept@) =~= before.push(r.model()));
            }
        }
        assert(old_m.take(n as int) =~= old_m);
        let ghost before = rules_model(kept@);
        kept.push(Rule { tool_name: tool, pattern, decision });
        assert(rules_model(kept@) =~= before.push((tool_name@, key_pat, decision)));
        self.toml_rules = kept;
        permissions_from_rules(&self.toml_rules)
    }

    /// Snapshot of the persisted rules.
    pub fn toml_rules_snapshot(&self) -> (r: Vec<Rule>)
        ensures
            rules_model(r@) == self.spec_toml(),
    {
        duplicate_rules(&self.toml_rules)
    }

    /// The project's front-matter rules.
    pub fn front_matter_rules(&self) -> (r: &[Rule])
        ensures
            rules_model(r@) == self.spec_front(),
    {
        self.front_matter_rules.as_slice()
    }

    /// Where the persisted rules are written, if anywhere.
    pub fn toml_path(&self) -> (r: Option<&str>)
        ensures
            match r {
                Some(s) => self.spec_toml_path() == Some(s@),
                None => self.spec_toml_path() is None,
            },
    {
        match &self.toml_path {
            Some(p) => Some(p.as_str()),
            None => None,
        }
    }
}

// ---------------------------------------------------------------------------
// Laws
// ---------------------------------------------------------------------------
/// The sensitive-path floor cannot be overridden: whatever the rules say,
/// a call whose path is a dotenv file or lies under `.ssh` is denied.
pub proof fn law_floor_always_denies(
    root: Seq<char>,
    front: Seq<RuleModel>,
    toml: Seq<RuleModel>,
    tool: Seq<char>,
    a: ToolArgs,
)
    requires
        a.path matches Some(p) && floor_sensitive(p@),
    ensures
        evaluate_spec(root, front, toml, tool, a) is Deny,
{
}

/// With no rule and no sensitive path, the built-in defaults allow only the
/// read-only tools (`read_file`, `list_dir`, `glob`) and `write_file` to a
/// path under the project root; every other call is put to the user as a
/// question, never allowed and never denied outright.
pub proof fn law_defaults_allow_only_reads_and_writes_in_root(root: Seq<char>, tool: Seq<char>, a: ToolArgs)
    requires
        !(a.path matches Some(p) && floor_sensitive(p@)),
    ensures
        (evaluate_spec(root, Seq::empty(), Seq::empty(), tool, a) == VerdictModel::Allow) <==> (tool
            == "read_file"@ || tool == "list_dir"@ || tool == "glob"@ || (tool == "write_file"@ && (a.path matches Some(
            p,
        ) && is_under_spec(p@, root)))),
        evaluate_spec(root, Seq::empty(), Seq::empty(), tool, a) != VerdictModel::Allow ==> evaluate_spec(
            root,
            Seq::empty(),
            Seq::empty(),
            tool,
            a,
        ) is Ask,
{
}

/// Front-matter rules take precedence over persisted rules and defaults:
/// when a front-matter rule matches (and the floor does not apply), its
/// decision is the verdict, whatever the persisted rules say.
pub proof fn law_front_matter_beats_toml(
    root: Seq<char>,
    front: Seq<RuleModel>,
    toml1: Seq<RuleModel>,
    toml2: Seq<RuleModel>,
    tool: Seq<char>,
    a: ToolArgs,
)
    requires
        match_first(front, tool, a) is Some,
    ensures
        evaluate_spec(root, front, toml1, tool, a) == evaluate_spec(root, front, toml2, tool, a),
{
}

/// Within a source, the first rule that applies decides.
pub proof fn law_first_match_wins(rules: Seq<RuleModel>, tool: Seq<char>, a: ToolArgs, i: int)
    requires
        0 <= i < rules.len(),
        rule_hits(rules[i], tool, a),
        forall|j: int| 0 <= j < i ==> !rule_hits(#[trigger] rules[j], tool, a),
    ensures
        match_first(rules, tool, a) == Some(rules[i].2),
    decreases i,
{
    if i > 0 {
        assert forall|j: int| 0 <= j < i - 1 implies !rule_hits(
            #[trigger] rules.drop_first()[j],
            tool,
            a,
        ) by {
            assert(rules.drop_first()[j] == rules[j + 1]);
        }
        assert(!rule_hits(rules[0], tool, a));
        law_first_match_wins(rules.drop_first(), tool, a, i - 1);
    }
}

proof fn lemma_match_first_push(rules: Seq<RuleModel>, r: RuleModel, tool: Seq<char>, a: ToolArgs)
    ensures
        match_first(rules.push(r), tool, a) == match match_first(rules, tool, a) {
            Some(d) => Some(d),
            None => if rule_hits(r, tool, a) {
                Some(r.2)
            } else {
                None
            },
        },
    decreases rules.len(),
{
    if rules.len() > 0 {
        assert(rules.push(r)[0] == rules[0]);
        assert(rules.push(r).drop_first() =~= rules.drop_first().push(r));
        lemma_match_first_push(rules.drop_first(), r, tool, a);
    } else {
        assert(rules.push(r)[0] == r);
        assert(rules.push(r).drop_first() =~= Seq::<RuleModel>::empty());
        assert(match_first(Seq::<RuleModel>::empty(), tool, a) is None);
        assert(match_first(rules, tool, a) is None);
    }
}

/// A recorded pattern always matches the call it was recorded from.
pub proof fn law_recorded_pattern_matches_its_call(tool: Seq<char>, a: ToolArgs)
    ensures
        pattern_matches(for_call_spec(tool, a), a),
{
    if let Some(p) = a.path {
        lemma_starts_with_self(p@);
    }
}

/// No rule left by `without_key` carries the removed key.
pub proof fn law_without_key_removes_key(rules: Seq<RuleModel>, tool: Seq<char>, pat: PatternModel)
    ensures
        forall|i: int|
            0 <= i < without_key(rules, tool, pat).len() ==> !(#[trigger] without_key(
                rules,
                tool,
                pat,
            )[i].0 == tool && without_key(rules, tool, pat)[i].1 == pat),
    decreases rules.len(),
{
    if rules.len() > 0 {
        law_without_key_removes_key(rules.drop_last(), tool, pat);
    }
}

/// Recording an answer makes it take effect: after the persisted rule set
/// is replaced as `record_rule` does, evaluating the same call yields the
/// recorded decision, unless the floor applies, a front-matter rule
/// matches, or a remaining persisted rule with another key matches first.
pub proof fn law_recorded_rule_takes_effect(
    root: Seq<char>,
    front: Seq<RuleModel>,
    toml: Seq<RuleModel>,
    tool: Seq<char>,
    a: ToolArgs,
    d: PermissionDecision,
)
    requires
        !(a.path matches Some(p) && floor_sensitive(p@)),
        match_first(front, tool, a) is None,
        match_first(without_key(toml, tool, for_call_spec(tool, a)), tool, a) is None,
    ensures
        evaluate_spec(
            root,
            front,
            without_key(toml, tool, for_call_spec(tool, a)).push(
                (tool, for_call_spec(tool, a), d),
            ),
            tool,
            a,
        ) == decision_verdict(d, tool, a, "permissions.toml"@),
{
    let kept = without_key(toml, tool, for_call_spec(tool, a));
    law_recorded_pattern_matches_its_call(tool, a);
    lemma_match_first_push(kept, (tool, for_call_spec(tool, a), d), tool, a);
}

/// Writing rules to disk and reading them back keeps every rule and the
/// relative order of the allow rules and of the deny rules: the rules come
/// back as all allow rules followed by all deny rules.
pub proof fn law_persist_round_trip(rules: Seq<RuleModel>, file: PermissionsToml)
    requires
        file.allow@.map_values(|s: SerializableRule| from_serializable_spec(s, PermissionDecision::Allow))
            == rules_of_decision(rules, PermissionDecision::Allow),
        file.deny@.map_values(|s: SerializableRule| from_serializable_spec(s, PermissionDecision::Deny))
            == rules_of_decision(rules, PermissionDecision::Deny),
    ensures
        rules_from_permissions_spec(file.allow@, file.deny@) == rules_of_decision(
            rules,
            PermissionDecision::Allow,
        ) + rules_of_decision(rules, PermissionDecision::Deny),
{
}

/// When every allow rule precedes every deny rule, the round trip gives
/// back exactly the original rule list.
pub proof fn law_partition_identity(rules: Seq<RuleModel>, k: int)
    requires
        0 <= k <= rules.len(),
        forall|i: int| 0 <= i < k ==> (#[trigger] rules[i]).2 == PermissionDecision::Allow,
        forall|i: int| k <= i < rules.len() ==> (#[trigger] rules[i]).2 == PermissionDecision::Deny,
    ensures
        rules_of_decision(rules, PermissionDecision::Allow) + rules_of_decision(
            rules,
            PermissionDecision::Deny,
        ) == rules,
    decreases rules.len(),
{
    if rules.len() == 0 {
        assert(rules_of_decision(rules, PermissionDecision::Allow) + rules_of_decision(
            rules,
            PermissionDecision::Deny,
        ) =~= rules);
    } else if k == rules.len() {
        lemma_rules_all_of(rules, PermissionDecision::Allow, PermissionDecision::Deny);
        assert(rules_of_decision(rules, PermissionDecision::Allow) + rules_of_decision(
            rules,
            PermissionDecision::Deny,
        ) =~= rules);
    } else {
        law_partition_identity(rules.drop_last(), k);
        assert(rules.drop_last().push(rules.last()) =~= rules);
    }
}

proof fn lemma_rules_all_of(rules: Seq<RuleModel>, d: PermissionDecision, other: PermissionDecision)
    requires
        d != other,
        forall|i: int| 0 <= i < rules.len() ==> (#[trigger] rules[i]).2 == d,
    ensures
        rules_of_decision(rules, d) == rules,
        rules_of_decision(rules, other) == Seq::<RuleModel>::empty(),
    decreases rules.len(),
{
    if rules.len() > 0 {
        lemma_rules_all_of(rules.drop_last(), d, other);
        assert(rules.drop_last().push(rules.last()) =~= rules);
    }
}

} // verus!
