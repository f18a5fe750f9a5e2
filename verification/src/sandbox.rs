//! OS-level sandboxing of tool spawns: the configuration, the per-tool
//! network and bind decisions, and the wrapper argument lists.
//!
//! Sandboxing is on by default. `tool-bash` is denied network unless an
//! override for it says otherwise; other tools inherit the global setting.
use vstd::prelude::*;

use crate::text::{chars_of, concat2, concat3, contains, contains_seq, push_char};

verus! {

/// Per-tool sandbox overrides, applied on top of the global settings.
#[derive(Debug, Clone, Default, PartialEq, Eq)]
pub struct ToolSandboxOverride {
    /// `Some(true)` grants network, `Some(false)` denies it, `None` inherits.
    pub allow_net: Option<bool>,
    /// Additional paths bound read-write for this tool.
    pub extra_binds: Vec<String>,
}

/// Per-tool overrides keyed by a substring of the tool binary path. Each
/// key occurs at most once; entries keep their insertion order.
#[derive(Debug, Clone, Default)]
pub struct ToolOverrides {
    entries: Vec<(String, ToolSandboxOverride)>,
}

/// Sandbox configuration.
#[derive(Debug, Clone)]
pub struct SandboxConfig {
    /// Whether to sandbox tool spawns at all.
    pub enabled: bool,
    /// Network access for all tools when sandboxed.
    pub allow_net: bool,
    /// Per-tool overrides.
    pub tool_overrides: ToolOverrides,
    /// Additional paths bound read-write for all tools.
    pub extra_binds: Vec<String>,
}

/// The wrapper an [`apply_sandbox`](crate::sandbox) call resolved to.
#[derive(Debug, Clone, Copy, PartialEq, Eq)]
pub enum SandboxWrapper {
    /// Sandbox disabled or wrapper binary not found: the tool runs unwrapped.
    Unwrapped,
    /// Wrapped with `bwrap` (Linux).
    Bwrap,
    /// Wrapped with `sandbox-exec` (macOS).
    SandboxExec,
}

/// What reading the configuration file produced.
#[derive(Debug, Clone)]
pub enum LoadOutcome {
    /// No file (or it could not be read).
    Missing,
    /// The file parsed.
    Parsed(SandboxConfig),
    /// The file exists but does not parse.
    Malformed,
}

/// How a sensitive path is hidden from the spawn.
#[derive(Debug, Clone, Copy, PartialEq, Eq)]
pub enum HiddenKind {
    /// The path does not exist (or cannot be inspected): nothing to hide.
    Missing,
    /// A directory: masked by an empty in-memory mount.
    Directory,
    /// A file: masked by binding `/dev/null` over it.
    File,
}

// ---------------------------------------------------------------------------
// Specification
// ---------------------------------------------------------------------------
/// The model of the override entries.
pub type OverridesModel = Seq<(Seq<char>, Option<bool>, Seq<Seq<char>>)>;

/// The models of a list of strings.
pub open spec fn strings_model(v: Seq<String>) -> Seq<Seq<char>> {
    v.map_values(|s: String| s@)
}

/// The model of one override entry.
pub open spec fn entry_model(e: (String, ToolSandboxOverride)) -> (Seq<char>, Option<bool>, Seq<
    Seq<char>,
>) {
    (e.0@, e.1.allow_net, strings_model(e.1.extra_binds@))
}

impl ToolOverrides {
    /// The entries: key, network override, extra binds.
    pub closed spec fn model(&self) -> OverridesModel {
        self.entries@.map_values(|e: (String, ToolSandboxOverride)| entry_model(e))
    }
}

/// No key occurs twice.
pub open spec fn keys_unique(m: OverridesModel) -> bool {
    forall|i: int, j: int| 0 <= i < j < m.len() ==> m[i].0 != m[j].0
}

/// The index of the first entry stored under `key`.
pub open spec fn key_index(m: OverridesModel, key: Seq<char>) -> Option<int>
    decreases m.len(),
{
    if m.len() == 0 {
        None
    } else if m[0].0 == key {
        Some(0)
    } else {
        match key_index(m.drop_first(), key) {
            Some(i) => Some(i + 1),
            None => None,
        }
    }
}

/// The override map after inserting `(key, net, binds)`: an entry with the
/// same key is replaced in place, otherwise the entry goes last.
pub open spec fn insert_spec(
    m: OverridesModel,
    key: Seq<char>,
    net: Option<bool>,
    binds: Seq<Seq<char>>,
) -> OverridesModel {
    match key_index(m, key) {
        Some(i) => m.update(i, (key, net, binds)),
        None => m.push((key, net, binds)),
    }
}

proof fn lemma_key_index(m: OverridesModel, key: Seq<char>)
    ensures
        match key_index(m, key) {
            Some(i) => 0 <= i < m.len() && m[i].0 == key && forall|j: int|
                0 <= j < i ==> m[j].0 != key,
            None => forall|j: int| 0 <= j < m.len() ==> m[j].0 != key,
        },
    decreases m.len(),
{
    if m.len() > 0 {
        lemma_key_index(m.drop_first(), key);
        if m[0].0 != key {
            match key_index(m.drop_first(), key) {
                Some(i) => {
                    assert forall|j: int| 0 <= j < i + 1 implies m[j].0 != key by {
                        if j > 0 {
                            assert(m[j] == m.drop_first()[j - 1]);
                        }
                    }
                },
                None => {
                    assert forall|j: int| 0 <= j < m.len() implies m[j].0 != key by {
                        if j > 0 {
                            assert(m[j] == m.drop_first()[j - 1]);
                        }
                    }
                },
            }
        }
    }
}

proof fn lemma_key_index_at(m: OverridesModel, key: Seq<char>, i: int)
    requires
        0 <= i < m.len(),
        m[i].0 == key,
        forall|j: int| 0 <= j < i ==> m[j].0 != key,
    ensures
        key_index(m, key) == Some(i),
{
    lemma_key_index(m, key);
    match key_index(m, key) {
        Some(k) => {
            if k < i {
                assert(m[k].0 != key);
            } else if k > i {
                assert(m[i].0 != key);
            }
        },
        None => {
            assert(m[i].0 != key);
        },
    }
}

/// The network setting of the first override whose key occurs in `bin`
/// and that sets one.
pub open spec fn first_net_override(m: OverridesModel, bin: Seq<char>) -> Option<bool>
    decreases m.len(),
{
    if m.len() == 0 {
        None
    } else if contains_seq(bin, m[0].0) && m[0].1 is Some {
        m[0].1
    } else {
        first_net_override(m.drop_first(), bin)
    }
}

/// The index of the first override whose key occurs in `bin`.
pub open spec fn first_override_index(m: OverridesModel, bin: Seq<char>) -> Option<int>
    decreases m.len(),
{
    if m.len() == 0 {
        None
    } else if contains_seq(bin, m[0].0) {
        Some(0)
    } else {
        match first_override_index(m.drop_first(), bin) {
            Some(i) => Some(i + 1),
            None => None,
        }
    }
}

/// `m` after pinning `key`'s network setting to `net` where unset.
pub open spec fn pin_net_spec(m: OverridesModel, key: Seq<char>, net: bool) -> OverridesModel {
    match key_index(m, key) {
        Some(i) => if m[i].1 is None {
            m.update(i, (key, Some(net), m[i].2))
        } else {
            m
        },
        None => m.push((key, Some(net), Seq::empty())),
    }
}

/// Is network allowed for the tool at `bin`? An override decides first;
/// then `tool-bash` is denied; otherwise the global setting applies.
pub open spec fn net_allowed_spec(m: OverridesModel, global: bool, bin: Seq<char>) -> bool {
    match first_net_override(m, bin) {
        Some(net) => net,
        None => if contains_seq(bin, "tool-bash"@) {
            false
        } else {
            global
        },
    }
}

/// The extra binds for the tool at `bin`: the global ones, then those of
/// the first matching override.
pub open spec fn extra_binds_spec(m: OverridesModel, global: Seq<Seq<char>>, bin: Seq<char>) -> Seq<
    Seq<char>,
> {
    match first_override_index(m, bin) {
        Some(i) => global + m[i].2,
        None => global,
    }
}

/// The TinyScheme escape of one character.
pub open spec fn scheme_escape(c: char) -> Seq<char> {
    if c == '\\' {
        seq!['\\', '\\']
    } else if c == '"' {
        seq!['\\', '"']
    } else if c == '\n' {
        seq!['\\', 'n']
    } else if c == '\r' {
        seq!['\\', 'r']
    } else {
        seq![c]
    }
}

/// A string quoted for a TinyScheme string literal.
pub open spec fn scheme_quote_spec(s: Seq<char>) -> Seq<char>
    decreases s.len(),
{
    if s.len() == 0 {
        Seq::empty()
    } else {
        scheme_quote_spec(s.drop_last()) + scheme_escape(s.last())
    }
}

/// `(allow file-write* (subpath "<p>"))` with `p` quoted.
pub open spec fn allow_write_line(p: Seq<char>) -> Seq<char> {
    "(allow file-write* (subpath \""@ + scheme_quote_spec(p) + "\"))\n"@
}

/// `(deny file-read* (subpath "<p>"))` with `p` quoted.
pub open spec fn deny_read_line(p: Seq<char>) -> Seq<char> {
    "(deny file-read* (subpath \""@ + scheme_quote_spec(p) + "\"))\n"@
}

/// The concatenated write-allow lines for `ps`.
pub open spec fn allow_write_lines(ps: Seq<Seq<char>>) -> Seq<char>
    decreases ps.len(),
{
    if ps.len() == 0 {
        Seq::empty()
    } else {
        allow_write_lines(ps.drop_last()) + allow_write_line(ps.last())
    }
}

/// The concatenated read-deny lines for `ps`.
pub open spec fn deny_read_lines(ps: Seq<Seq<char>>) -> Seq<char>
    decreases ps.len(),
{
    if ps.len() == 0 {
        Seq::empty()
    } else {
        deny_read_lines(ps.drop_last()) + deny_read_line(ps.last())
    }
}

/// The `sandbox-exec` profile: allow by default, deny writes except under
/// the project root and the extra binds, deny reads of the sensitive
/// paths, deny network unless allowed, allow fork and exec.
pub open spec fn macos_profile_spec(
    root: Seq<char>,
    allow_net: bool,
    binds: Seq<Seq<char>>,
    sensitive: Seq<Seq<char>>,
) -> Seq<char> {
    "(version 1)\n(allow default)\n(deny file-write*)\n"@ + allow_write_line(root)
        + allow_write_lines(binds) + deny_read_lines(sensitive) + if allow_net {
        Seq::empty()
    } else {
        "(deny network*)\n"@
    } + "(allow process-fork)\n(allow process-exec)\n"@
}

/// `--bind p p` for each path.
pub open spec fn bind_args(ps: Seq<Seq<char>>) -> Seq<Seq<char>>
    decreases ps.len(),
{
    if ps.len() == 0 {
        Seq::empty()
    } else {
        bind_args(ps.drop_last()) + seq!["--bind"@, ps.last(), ps.last()]
    }
}

/// The `bwrap` argument list: read-only root, read-write project root and
/// extra binds, a private network namespace unless network is allowed,
/// die-with-parent and a new session, the overlay arguments hiding the
/// sensitive paths, then `--` and the original command.
pub open spec fn bwrap_args_spec(
    root: Option<Seq<char>>,
    binds: Seq<Seq<char>>,
    allow_net: bool,
    overlay: Seq<Seq<char>>,
    program: Seq<char>,
    args: Seq<Seq<char>>,
) -> Seq<Seq<char>> {
    seq!["--ro-bind"@, "/"@, "/"@] + match root {
        Some(r) => seq!["--bind"@, r, r],
        None => Seq::empty(),
    } + bind_args(binds) + if allow_net {
        Seq::empty()
    } else {
        seq!["--unshare-net"@]
    } + seq!["--die-with-parent"@, "--new-session"@] + overlay + seq!["--"@, program] + args
}

/// The arguments that hide one sensitive path.
pub open spec fn hide_args_spec(kind: HiddenKind, path: Seq<char>) -> Seq<Seq<char>> {
    match kind {
        HiddenKind::Missing => Seq::empty(),
        HiddenKind::Directory => seq!["--tmpfs"@, path],
        HiddenKind::File => seq!["--ro-bind"@, "/dev/null"@, path],
    }
}

impl SandboxConfig {
    /// The default: enabled, no network, no overrides, no extra binds.
    pub open spec fn is_default(&self) -> bool {
        &&& self.enabled
        &&& !self.allow_net
        &&& self.tool_overrides.model().len() == 0
        &&& self.extra_binds@.len() == 0
    }
}

// ---------------------------------------------------------------------------
// Laws
// ---------------------------------------------------------------------------
/// `tool-bash` gets network only through an override: with no override
/// setting network for it, it is denied whatever the global setting.
pub proof fn law_bash_denied_without_override(m: OverridesModel, global: bool, bin: Seq<char>)
    requires
        contains_seq(bin, "tool-bash"@),
        first_net_override(m, bin) is None,
    ensures
        !net_allowed_spec(m, global, bin),
{
}

/// Inserting a key keeps every key unique.
pub proof fn law_insert_keeps_keys_unique(
    m: OverridesModel,
    key: Seq<char>,
    net: Option<bool>,
    binds: Seq<Seq<char>>,
)
    requires
        keys_unique(m),
    ensures
        keys_unique(insert_spec(m, key, net, binds)),
{
    lemma_key_index(m, key);
    if let Some(i) = key_index(m, key) {
        let u = m.update(i, (key, net, binds));
        assert forall|a: int, b: int| 0 <= a < b < u.len() implies u[a].0 != u[b].0 by {
            if a == i {
                assert(m[b].0 != m[i].0);
            } else if b == i {
                assert(m[a].0 != m[i].0);
            }
        }
    } else {
        let u = m.push((key, net, binds));
        assert forall|a: int, b: int| 0 <= a < b < u.len() implies u[a].0 != u[b].0 by {
            if b == m.len() {
                assert(m[a].0 != key);
            }
        }
    }
}

/// Scheme quoting is compositional: quoting `a + b` quotes `a`, then `b`.
pub proof fn law_scheme_quote_concat(a: Seq<char>, b: Seq<char>)
    ensures
        scheme_quote_spec(a + b) == scheme_quote_spec(a) + scheme_quote_spec(b),
    decreases b.len(),
{
    if b.len() == 0 {
        assert(a + b =~= a);
        assert(scheme_quote_spec(a) + Seq::<char>::empty() =~= scheme_quote_spec(a));
    } else {
        law_scheme_quote_concat(a, b.drop_last());
        assert((a + b).drop_last() =~= a + b.drop_last());
        assert(scheme_quote_spec(a) + scheme_quote_spec(b.drop_last()) + scheme_escape(b.last())
            =~= scheme_quote_spec(a) + (scheme_quote_spec(b.drop_last()) + scheme_escape(
            b.last(),
        )));
    }
}

/// A quoted string holds no raw `"` that is not escaped: every `"` in the
/// output is preceded by a backslash, so a path cannot end the literal.
pub proof fn law_scheme_quote_has_no_newline(s: Seq<char>)
    ensures
        forall|i: int|
            0 <= i < scheme_quote_spec(s).len() ==> #[trigger] scheme_quote_spec(s)[i] != '\n'
                && scheme_quote_spec(s)[i] != '\r',
    decreases s.len(),
{
    if s.len() > 0 {
        law_scheme_quote_has_no_newline(s.drop_last());
        let p = scheme_quote_spec(s.drop_last());
        let e = scheme_escape(s.last());
        assert forall|i: int| 0 <= i < (p + e).len() implies #[trigger] (p + e)[i] != '\n' && (p
            + e)[i] != '\r' by {
            if i < p.len() {
                assert((p + e)[i] == p[i]);
            } else {
                assert((p + e)[i] == e[i - p.len()]);
            }
        }
    }
}

// ---------------------------------------------------------------------------
// Implementation
// ---------------------------------------------------------------------------
fn clone_strings(v: &Vec<String>) -> (r: Vec<String>)
    ensures
        strings_model(r@) == strings_model(v@),
{
    let mut out: Vec<String> = Vec::new();
    let n = v.len();
    for i in 0..n
        invariant
            n == v@.len(),
            strings_model(out@) == strings_model(v@.take(i as int)),
    {
        out.push(v[i].clone());
        assert(strings_model(v@.take(i + 1)) =~= strings_model(v@.take(i as int)).push(
            v@[i as int]@,
        ));
    }
    assert(v@.take(n as int) =~= v@);
    out
}

impl ToolOverrides {
    /// No overrides.
    pub fn new() -> (r: Self)
        ensures
            r.model() == OverridesModel::empty(),
    {
        let r = ToolOverrides { entries: Vec::new() };
        assert(r.model() =~= OverridesModel::empty());
        r
    }

    /// Are there no overrides?
    pub fn is_empty(&self) -> (r: bool)
        ensures
            r == (self.model().len() == 0),
    {
        self.entries.len() == 0
    }

    /// The entries in insertion order.
    pub fn entries(&self) -> (r: &[(String, ToolSandboxOverride)])
        ensures
            r@.map_values(|e: (String, ToolSandboxOverride)| entry_model(e)) == self.model(),
    {
        self.entries.as_slice()
    }

    /// Number of overrides.
    pub fn len(&self) -> (r: usize)
        ensures
            r == self.model().len(),
    {
        self.entries.len()
    }

    /// Insert or replace the override for `key`; returns the previous
    /// override for that key.
    pub fn insert(&mut self, key: String, value: ToolSandboxOverride) -> (prev: Option<
        ToolSandboxOverride,
    >)
        ensures
            final(self).model() == insert_spec(
                old(self).model(),
                key@,
                value.allow_net,
                strings_model(value.extra_binds@),
            ),
            keys_unique(old(self).model()) ==> keys_unique(final(self).model()),
            prev is Some <==> key_index(old(self).model(), key@) is Some,
    {
        let ghost m = self.model();
        let ghost new_entry = (key@, value.allow_net, strings_model(value.extra_binds@));
        proof {
            if keys_unique(m) {
                law_insert_keeps_keys_unique(m, key@, value.allow_net, strings_model(value.extra_binds@));
            }
        }
        let n = self.entries.len();
        for i in 0..n
            invariant
                n == self.entries@.len(),
                m == self.model(),
                m == old(self).model(),
                new_entry == (key@, value.allow_net, strings_model(value.extra_binds@)),
                forall|j: int| 0 <= j < i ==> m[j].0 != key@,
        {
            if self.entries[i].0 == key {
                assert(m[i as int].0 == key@);
                let old_value = self.entries[i].1.clone();
                let ghost before = self.entries@;
                self.entries.set(i, (key, value));
                proof {
                    lemma_key_index_at(m, key@, i as int);
                    let f = |e: (String, ToolSandboxOverride)| (e.0@, e.1.allow_net, strings_model(e.1.extra_binds@));
                    assert(m == before.map_values(f));
                    assert(self.model() == self.entries@.map_values(f));
                    assert(f(self.entries@[i as int]) == new_entry);
                    assert forall|j: int| 0 <= j < m.len() implies #[trigger] self.model()[j] == m.update(i as int, new_entry)[j] by {
                        if j != i {
                            assert(self.entries@[j] == before[j]);
                        }
                    }
                }
                assert(self.model() =~= m.update(i as int, new_entry));
                return Some(old_value);
            }
        }
        self.entries.push((key, value));
        proof {
            lemma_key_index(m, key@);
            if let Some(k) = key_index(m, key@) {
                assert(m[k].0 != key@);
            }
        }
        assert(self.model() =~= m.push(new_entry));
        None
    }

    /// The override stored under exactly `key`.
    pub fn get(&self, key: &str) -> (r: Option<&ToolSandboxOverride>)
        ensures
            match r {
                Some(v) => exists|i: int|
                    0 <= i < self.model().len() && self.model()[i].0 == key@ && self.model()[i].1
                        == v.allow_net,
                None => forall|i: int|
                    0 <= i < self.model().len() ==> self.model()[i].0 != key@,
            },
    {
        let k = String::from_str(key);
        let n = self.entries.len();
        for i in 0..n
            invariant
                n == self.entries@.len(),
                k@ == key@,
                forall|j: int| 0 <= j < i ==> self.model()[j].0 != key@,
        {
            if self.entries[i].0 == k {
                assert(self.model()[i as int].0 == key@);
                return Some(&self.entries[i].1);
            }
        }
        None
    }

    /// The network setting of the first override whose key occurs in
    /// `bin` and that sets one.
    pub fn net_override_for(&self, bin: &[char]) -> (r: Option<bool>)
        ensures
            r == first_net_override(self.model(), bin@),
    {
        let ghost m = self.model();
        let n = self.entries.len();
        assert(m.skip(0) =~= m);
        for i in 0..n
            invariant
                n == self.entries@.len(),
                m == self.model(),
                first_net_override(m, bin@) == first_net_override(m.skip(i as int), bin@),
        {
            let key = chars_of(self.entries[i].0.as_str());
            assert(m[i as int].0 == key@);
            assert(m.skip(i as int)[0] == m[i as int]);
            assert(m.skip(i as int).drop_first() =~= m.skip(i + 1));
            if contains(bin, &key) {
                if let Some(net) = self.entries[i].1.allow_net {
                    return Some(net);
                }
            }
        }
        assert(m.skip(n as int) =~= OverridesModel::empty());
        None
    }

    /// The extra binds of the first override whose key occurs in `bin`.
    pub fn binds_for(&self, bin: &[char]) -> (r: Option<Vec<String>>)
        ensures
            match first_override_index(self.model(), bin@) {
                Some(i) => r matches Some(v) && strings_model(v@) == self.model()[i].2,
                None => r is None,
            },
    {
        let ghost m = self.model();
        let n = self.entries.len();
        assert(m.skip(0) =~= m);
        for i in 0..n
            invariant
                n == self.entries@.len(),
                m == self.model(),
                first_override_index(m, bin@) == match first_override_index(
                    m.skip(i as int),
                    bin@,
                ) {
                    Some(k) => Some(k + i),
                    None => None,
                },
        {
            let key = chars_of(self.entries[i].0.as_str());
            assert(m[i as int].0 == key@);
            assert(m.skip(i as int)[0] == m[i as int]);
            assert(m.skip(i as int).drop_first() =~= m.skip(i + 1));
            if contains(bin, &key) {
                return Some(clone_strings(&self.entries[i].1.extra_binds));
            }
        }
        assert(m.skip(n as int) =~= OverridesModel::empty());
        None
    }

    /// Pin `key`'s network setting to `net` unless it already has one: an
    /// entry under `key` without a network setting gets it, a missing
    /// entry is added with it, a set one is kept.
    pub fn pin_net_if_unset(&mut self, key: &str, net: bool)
        ensures
            final(self).model() == pin_net_spec(old(self).model(), key@, net),
    {
        let ghost m = self.model();
        let k = String::from_str(key);
        let n = self.entries.len();
        for i in 0..n
            invariant
                n == self.entries@.len(),
                m == self.model(),
                m == old(self).model(),
                k@ == key@,
                forall|j: int| 0 <= j < i ==> m[j].0 != key@,
        {
            if self.entries[i].0 == k {
                proof {
                    lemma_key_index_at(m, key@, i as int);
                }
                if self.entries[i].1.allow_net.is_none() {
                    let binds = clone_strings(&self.entries[i].1.extra_binds);
                    let ghost before = self.entries@;
                    let ghost want = (key@, Some(net), m[i as int].2);
                    self.entries.set(
                        i,
                        (k, ToolSandboxOverride { allow_net: Some(net), extra_binds: binds }),
                    );
                    proof {
                        let f = |e: (String, ToolSandboxOverride)|
                            (e.0@, e.1.allow_net, strings_model(e.1.extra_binds@));
                        assert(m == before.map_values(f));
                        assert(f(self.entries@[i as int]) == want);
                        assert forall|j: int| 0 <= j < m.len() implies #[trigger] self.model()[j]
                            == m.update(i as int, want)[j] by {
                            if j != i {
                                assert(self.entries@[j] == before[j]);
                            }
                        }
                    }
                    assert(self.model() =~= m.update(i as int, want));
                }
                return ;
            }
        }
        proof {
            lemma_key_index(m, key@);
            if let Some(j) = key_index(m, key@) {
                assert(m[j].0 != key@);
            }
        }
        let empty: Vec<String> = Vec::new();
        assert(strings_model(empty@) =~= Seq::<Seq<char>>::empty());
        self.entries.push((k, ToolSandboxOverride { allow_net: Some(net), extra_binds: empty }));
        assert(self.model() =~= m.push((key@, Some(net), Seq::<Seq<char>>::empty())));
    }

    /// A copy of the overrides.
    pub fn duplicate(&self) -> (r: ToolOverrides)
        ensures
            r.model() == self.model(),
    {
        let mut out: Vec<(String, ToolSandboxOverride)> = Vec::new();
        let n = self.entries.len();
        let ghost f = |e: (String, ToolSandboxOverride)| entry_model(e);
        for i in 0..n
            invariant
                n == self.entries@.len(),
                f == |e: (String, ToolSandboxOverride)| entry_model(e),
                out@.map_values(f) == self.entries@.take(i as int).map_values(f),
        {
            let e = &self.entries[i];
            let copy = (e.0.clone(), ToolSandboxOverride {
                allow_net: e.1.allow_net,
                extra_binds: clone_strings(&e.1.extra_binds),
            });
            let ghost before = out@;
            assert(copy.0@ == self.entries@[i as int].0@);
            assert(f(copy) == f(self.entries@[i as int]));
            out.push(copy);
            assert(out@.map_values(f) =~= before.map_values(f).push(f(self.entries@[i as int])));
            assert(self.entries@.take(i + 1).map_values(f) =~= self.entries@.take(i as int).map_values(f).push(f(self.entries@[i as int])));
        }
        assert(self.entries@.take(n as int) =~= self.entries@);
        let r = ToolOverrides { entries: out };
        assert(r.model() =~= self.model());
        r
    }
}

impl Default for SandboxConfig {
    /// Enabled, no network, no overrides, no extra binds.
    fn default() -> (r: Self)
        ensures
            r.is_default(),
    {
        SandboxConfig {
            enabled: true,
            allow_net: false,
            tool_overrides: ToolOverrides::new(),
            extra_binds: Vec::new(),
        }
    }
}

impl SandboxConfig {
    /// Whether network is allowed for the tool at `tool_bin` (see
    /// [`net_allowed_spec`]).
    pub fn net_allowed_for(&self, tool_bin: &str) -> (r: bool)
        ensures
            r == net_allowed_spec(self.tool_overrides.model(), self.allow_net, tool_bin@),
    {
        let bin = chars_of(tool_bin);
        match self.tool_overrides.net_override_for(&bin) {
            Some(net) => net,
            None => {
                let bash = chars_of("tool-bash");
                if contains(&bin, &bash) {
                    false
                } else {
                    self.allow_net
                }
            },
        }
    }

    /// The extra binds for the tool at `tool_bin`: the global ones, then
    /// those of the first matching override.
    pub fn extra_binds_for(&self, tool_bin: &str) -> (r: Vec<String>)
        ensures
            strings_model(r@) == extra_binds_spec(
                self.tool_overrides.model(),
                strings_model(self.extra_binds@),
                tool_bin@,
            ),
    {
        let bin = chars_of(tool_bin);
        let mut out = clone_strings(&self.extra_binds);
        match self.tool_overrides.binds_for(&bin) {
            Some(more) => {
                let ghost a = out@;
                let ghost b = more@;
                let mut more = more;
                out.append(&mut more);
                assert(out@ =~= a + b);
                assert(strings_model(a + b) =~= strings_model(a) + strings_model(b));
                out
            },
            None => out,
        }
    }
}

impl SandboxConfig {
    /// A copy of the configuration.
    pub fn duplicate(&self) -> (r: SandboxConfig)
        ensures
            r.enabled == self.enabled,
            r.allow_net == self.allow_net,
            r.tool_overrides.model() == self.tool_overrides.model(),
            strings_model(r.extra_binds@) == strings_model(self.extra_binds@),
    {
        SandboxConfig {
            enabled: self.enabled,
            allow_net: self.allow_net,
            tool_overrides: self.tool_overrides.duplicate(),
            extra_binds: clone_strings(&self.extra_binds),
        }
    }

    /// The configuration for one `tool-bash` spawn: a copy in which the
    /// `tool-bash` override carries `allow_net`, unless the user pinned
    /// one, which wins.
    pub fn with_bash_net(&self, allow_net: bool) -> (r: SandboxConfig)
        ensures
            r.enabled == self.enabled,
            r.allow_net == self.allow_net,
            r.tool_overrides.model() == pin_net_spec(
                self.tool_overrides.model(),
                "tool-bash"@,
                allow_net,
            ),
            strings_model(r.extra_binds@) == strings_model(self.extra_binds@),
    {
        let mut c = self.duplicate();
        c.tool_overrides.pin_net_if_unset("tool-bash", allow_net);
        c
    }

    /// The configuration a load produced: the parsed file; the default
    /// when there is no file; the default but disabled when the file does
    /// not parse (a prior opt-out is never silently lost).
    pub fn from_load_outcome(o: LoadOutcome) -> (r: SandboxConfig)
        ensures
            match o {
                LoadOutcome::Missing => r.is_default(),
                LoadOutcome::Parsed(c) => r.enabled == c.enabled && r.allow_net == c.allow_net
                    && r.tool_overrides.model() == c.tool_overrides.model() && strings_model(
                    r.extra_binds@,
                ) == strings_model(c.extra_binds@),
                LoadOutcome::Malformed => !r.enabled && !r.allow_net
                    && r.tool_overrides.model().len() == 0 && r.extra_binds@.len() == 0,
            },
    {
        match o {
            LoadOutcome::Missing => SandboxConfig::default(),
            LoadOutcome::Parsed(c) => c,
            LoadOutcome::Malformed => {
                let mut c = SandboxConfig::default();
                c.enabled = false;
                c
            },
        }
    }
}

/// Quote a string for a TinyScheme string literal: backslash, double
/// quote, newline and carriage return are escaped.
pub fn scheme_quote(s: &str) -> (r: String)
    ensures
        r@ == scheme_quote_spec(s@),
{
    let cs = chars_of(s);
    let mut out = String::new();
    let n = cs.len();
    for i in 0..n
        invariant
            n == cs@.len(),
            cs@ == s@,
            out@ == scheme_quote_spec(cs@.take(i as int)),
    {
        let c = cs[i];
        assert(cs@.take(i + 1).drop_last() =~= cs@.take(i as int));
        let ghost before = out@;
        if c == '\\' {
            push_char(&mut out, '\\');
            push_char(&mut out, '\\');
        } else if c == '"' {
            push_char(&mut out, '\\');
            push_char(&mut out, '"');
        } else if c == '\n' {
            push_char(&mut out, '\\');
            push_char(&mut out, 'n');
        } else if c == '\r' {
            push_char(&mut out, '\\');
            push_char(&mut out, 'r');
        } else {
            push_char(&mut out, c);
        }
        assert(out@ =~= before + scheme_escape(c));
    }
    assert(cs@.take(n as int) =~= cs@);
    out
}

fn push_line(out: &mut String, head: &str, path: &str)
    ensures
        final(out)@ == old(out)@ + head@ + scheme_quote_spec(path@) + "\"))\n"@,
{
    let q = scheme_quote(path);
    out.append(head);
    out.append(q.as_str());
    out.append("\"))\n");
}

/// Build the `sandbox-exec` profile (see [`macos_profile_spec`]); every
/// path is quoted so it cannot break out of its string literal.
pub fn build_macos_profile_with(
    project_root: &str,
    allow_net: bool,
    extra_binds: &[String],
    sensitive: &[String],
) -> (r: String)
    ensures
        r@ == macos_profile_spec(
            project_root@,
            allow_net,
            strings_model(extra_binds@),
            strings_model(sensitive@),
        ),
{
    let mut out = String::from_str("(version 1)\n");
    out.append("(allow default)\n");
    out.append("(deny file-write*)\n");
    push_line(&mut out, "(allow file-write* (subpath \"", project_root);
    let ghost base = out@;
    let nb = extra_binds.len();
    assert(strings_model(extra_binds@).take(0) =~= Seq::<Seq<char>>::empty());
    for i in 0..nb
        invariant
            nb == extra_binds@.len(),
            out@ == base + allow_write_lines(strings_model(extra_binds@).take(i as int)),
    {
        let ghost ps = strings_model(extra_binds@);
        assert(ps.take(i + 1).drop_last() =~= ps.take(i as int));
        assert(ps.take(i + 1).last() == extra_binds@[i as int]@);
        push_line(&mut out, "(allow file-write* (subpath \"", extra_binds[i].as_str());
    }
    assert(strings_model(extra_binds@).take(nb as int) =~= strings_model(extra_binds@));
    let ghost base2 = out@;
    let ns = sensitive.len();
    assert(strings_model(sensitive@).take(0) =~= Seq::<Seq<char>>::empty());
    for i in 0..ns
        invariant
            ns == sensitive@.len(),
            out@ == base2 + deny_read_lines(strings_model(sensitive@).take(i as int)),
    {
        let ghost ps = strings_model(sensitive@);
        assert(ps.take(i + 1).drop_last() =~= ps.take(i as int));
        assert(ps.take(i + 1).last() == sensitive@[i as int]@);
        push_line(&mut out, "(deny file-read* (subpath \"", sensitive[i].as_str());
    }
    assert(strings_model(sensitive@).take(ns as int) =~= strings_model(sensitive@));
    if !allow_net {
        out.append("(deny network*)\n");
    }
    out.append("(allow process-fork)\n");
    out.append("(allow process-exec)\n");
    proof {
        reveal_strlit("(version 1)\n");
        reveal_strlit("(allow default)\n");
        reveal_strlit("(deny file-write*)\n");
        reveal_strlit("(version 1)\n(allow default)\n(deny file-write*)\n");
        reveal_strlit("(allow process-fork)\n");
        reveal_strlit("(allow process-exec)\n");
        reveal_strlit("(allow process-fork)\n(allow process-exec)\n");
    }
    assert(out@ =~= macos_profile_spec(
        project_root@,
        allow_net,
        strings_model(extra_binds@),
        strings_model(sensitive@),
    ));
    out
}

fn push_str(out: &mut Vec<String>, s: &str)
    ensures
        strings_model(final(out)@) == strings_model(old(out)@).push(s@),
{
    let ghost before = out@;
    out.push(String::from_str(s));
    assert(strings_model(out@) =~= strings_model(before).push(s@));
}

/// The `bwrap` argument list (see [`bwrap_args_spec`]). `project_root` and
/// `binds` are the already-resolved paths; `overlay` hides the sensitive
/// paths; `program` and `args` are the wrapped command.
pub fn bwrap_args(
    project_root: Option<&str>,
    binds: &[String],
    allow_net: bool,
    overlay: &[String],
    program: &str,
    args: &[String],
) -> (r: Vec<String>)
    ensures
        strings_model(r@) == bwrap_args_spec(
            match project_root {
                Some(p) => Some(p@),
                None => None,
            },
            strings_model(binds@),
            allow_net,
            strings_model(overlay@),
            program@,
            strings_model(args@),
        ),
{
    let mut out: Vec<String> = Vec::new();
    push_str(&mut out, "--ro-bind");
    push_str(&mut out, "/");
    push_str(&mut out, "/");
    if let Some(r) = project_root {
        push_str(&mut out, "--bind");
        push_str(&mut out, r);
        push_str(&mut out, r);
    }
    let ghost base = strings_model(out@);
    let nb = binds.len();
    assert(strings_model(binds@).take(0) =~= Seq::<Seq<char>>::empty());
    assert(base + bind_args(Seq::<Seq<char>>::empty()) =~= base);
    for i in 0..nb
        invariant
            nb == binds@.len(),
            strings_model(out@) == base + bind_args(strings_model(binds@).take(i as int)),
    {
        let ghost ps = strings_model(binds@);
        assert(ps.take(i + 1).drop_last() =~= ps.take(i as int));
        assert(ps.take(i + 1).last() == binds@[i as int]@);
        push_str(&mut out, "--bind");
        push_str(&mut out, binds[i].as_str());
        push_str(&mut out, binds[i].as_str());
        assert(strings_model(out@) =~= base + bind_args(ps.take(i + 1)));
    }
    assert(strings_model(binds@).take(nb as int) =~= strings_model(binds@));
    if !allow_net {
        push_str(&mut out, "--unshare-net");
    }
    push_str(&mut out, "--die-with-parent");
    push_str(&mut out, "--new-session");
    let ghost mid = strings_model(out@);
    let no = overlay.len();
    for i in 0..no
        invariant
            no == overlay@.len(),
            strings_model(out@) == mid + strings_model(overlay@).take(i as int),
    {
        push_str(&mut out, overlay[i].as_str());
        assert(strings_model(overlay@).take(i + 1) =~= strings_model(overlay@).take(i as int).push(
            overlay@[i as int]@,
        ));
    }
    assert(strings_model(overlay@).take(no as int) =~= strings_model(overlay@));
    push_str(&mut out, "--");
    push_str(&mut out, program);
    let ghost tail = strings_model(out@);
    let na = args.len();
    for i in 0..na
        invariant
            na == args@.len(),
            strings_model(out@) == tail + strings_model(args@).take(i as int),
    {
        push_str(&mut out, args[i].as_str());
        assert(strings_model(args@).take(i + 1) =~= strings_model(args@).take(i as int).push(
            args@[i as int]@,
        ));
    }
    assert(strings_model(args@).take(na as int) =~= strings_model(args@));
    assert(strings_model(out@) =~= bwrap_args_spec(
        match project_root {
            Some(p) => Some(p@),
            None => None,
        },
        strings_model(binds@),
        allow_net,
        strings_model(overlay@),
        program@,
        strings_model(args@),
    ));
    out
}

/// The `bwrap` arguments hiding one sensitive path: an empty tmpfs over a
/// directory, `/dev/null` bound over a file, nothing for a missing path.
pub fn hide_mount_args(kind: HiddenKind, path: &str) -> (r: Vec<String>)
    ensures
        strings_model(r@) == hide_args_spec(kind, path@),
{
    let mut out: Vec<String> = Vec::new();
    match kind {
        HiddenKind::Missing => {},
        HiddenKind::Directory => {
            push_str(&mut out, "--tmpfs");
            push_str(&mut out, path);
        },
        HiddenKind::File => {
            push_str(&mut out, "--ro-bind");
            push_str(&mut out, "/dev/null");
            push_str(&mut out, path);
        },
    }
    assert(strings_model(out@) =~= hide_args_spec(kind, path@));
    out
}

/// Whether a spawn is wrapped at all: only when sandboxing is enabled.
pub fn sandbox_requested(config: &SandboxConfig) -> (r: bool)
    ensures
        r == config.enabled,
{
    config.enabled
}

} // verus!
