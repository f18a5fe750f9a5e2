//! The tool registry's decisions.
//!
//! Spawning tool servers and speaking MCP to them is the embedder's work;
//! this module decides what that work must be: which endpoint is the shell
//! tool, which server answers a tool name, when two servers advertise the
//! same name, when the lazily spawned shell server must be respawned, and
//! how a tool result is normalized.
use vstd::prelude::*;

use crate::text::{chars_of, contains, contains_seq, concat3, push_char};

verus! {

/// The substring that identifies the shell tool's binary path.
pub const TOOL_BASH_MARKER: &'static str = "tool-bash";

/// Per-call override of the shell tool's network access.
#[derive(Debug, Clone, Copy, PartialEq, Eq, Structural)]
pub enum NetOverride {
    /// Defer to the resolver's policy.
    Inherit,
    /// Grant network access for this call's spawn.
    ForceAllow,
    /// Deny network access for this call's spawn.
    ForceDeny,
}

impl Default for NetOverride {
    fn default() -> (r: NetOverride)
        ensures
            r == NetOverride::Inherit,
    {
        NetOverride::Inherit
    }
}

/// Decides which network access the shell tool is spawned with.
///
/// `resolve_policy` answers the no-override case (it may consult the user);
/// the provided `resolve` lets explicit overrides win without consulting it.
pub trait BashNetResolver {
    /// The policy-level network decision.
    fn resolve_policy(&self) -> bool;

    /// The decision for one call, given its override.
    fn resolve(&self, over: NetOverride) -> (r: bool)
        default_ensures
            over == NetOverride::ForceAllow ==> r,
            over == NetOverride::ForceDeny ==> !r,
            over == NetOverride::Inherit ==> call_ensures(Self::resolve_policy, (self,), r),
    {
        match over {
            NetOverride::ForceAllow => true,
            NetOverride::ForceDeny => false,
            NetOverride::Inherit => self.resolve_policy(),
        }
    }
}

/// A resolver with a fixed policy answer.
#[derive(Debug, Clone, Copy, PartialEq, Eq)]
pub struct FixedPolicy {
    /// The answer to every policy question.
    pub allow: bool,
}

impl BashNetResolver for FixedPolicy {
    fn resolve_policy(&self) -> (r: bool)
        ensures
            r == self.allow,
    {
        self.allow
    }
}

/// The decision a resolver with policy answer `policy` makes for `over`.
pub open spec fn resolved_net(over: NetOverride, policy: bool) -> bool {
    match over {
        NetOverride::ForceAllow => true,
        NetOverride::ForceDeny => false,
        NetOverride::Inherit => policy,
    }
}

/// The decision for one shell call under a fixed policy answer.
pub fn resolve_with(over: NetOverride, policy: bool) -> (r: bool)
    ensures
        r == resolved_net(over, policy),
{
    match over {
        NetOverride::ForceAllow => true,
        NetOverride::ForceDeny => false,
        NetOverride::Inherit => FixedPolicy { allow: policy }.resolve_policy(),
    }
}

/// Is this command path the shell tool's?
pub open spec fn is_bash_command(command: Seq<char>) -> bool {
    contains_seq(command, TOOL_BASH_MARKER@)
}

/// Does `command` name the shell tool (its path holds the marker)?
pub fn is_bash_endpoint(command: &str) -> (r: bool)
    ensures
        r == is_bash_command(command@),
{
    let cs = chars_of(command);
    let marker = chars_of(TOOL_BASH_MARKER);
    contains(cs.as_slice(), marker.as_slice())
}

// ---------------------------------------------------------------------------
// Lazily spawned shell server
// ---------------------------------------------------------------------------
/// The parameters a shell server was spawned with; a cached server serves a
/// call only when its key equals the call's.
#[derive(Debug, Clone, Copy, PartialEq, Eq, Structural)]
pub struct BashSpawnKey {
    /// Whether the server may use the network.
    pub allow_net: bool,
}

/// What the lazy shell slot must do before dispatching a call.
#[derive(Debug, Clone, Copy, PartialEq, Eq, Structural)]
pub enum BashDispatch {
    /// The cached server fits: dispatch to it.
    Reuse,
    /// Spawn a server with this key first; keep the old one until the new
    /// one is up.
    Spawn(BashSpawnKey),
}

/// The lazy shell slot: the key of the running shell server, if any.
#[derive(Debug, Clone, Copy, PartialEq, Eq, Structural)]
pub struct BashSlot {
    /// Key of the running server.
    pub active: Option<BashSpawnKey>,
}

/// The dispatch plan for a call wanting `wanted` when `active` runs.
pub open spec fn plan_spec(active: Option<BashSpawnKey>, wanted: BashSpawnKey) -> BashDispatch {
    if active == Some(wanted) {
        BashDispatch::Reuse
    } else {
        BashDispatch::Spawn(wanted)
    }
}

impl BashSlot {
    /// No server running yet.
    pub fn new() -> (s: BashSlot)
        ensures
            s.active is None,
    {
        BashSlot { active: None }
    }

    /// Plan a call that resolved to `allow_net`: reuse the running server
    /// when its key matches, otherwise spawn.
    pub fn plan(&self, allow_net: bool) -> (d: BashDispatch)
        ensures
            d == plan_spec(self.active, BashSpawnKey { allow_net }),
    {
        let wanted = BashSpawnKey { allow_net };
        match self.active {
            Some(k) => if k.allow_net == allow_net {
                BashDispatch::Reuse
            } else {
                BashDispatch::Spawn(wanted)
            },
            None => BashDispatch::Spawn(wanted),
        }
    }

    /// A server with `key` came up and replaced the previous one. (A failed
    /// spawn leaves the slot as it was.)
    pub fn spawned(&mut self, key: BashSpawnKey)
        ensures
            final(self).active == Some(key),
    {
        self.active = Some(key);
    }

    /// Settle an attempt to bring up a shell server for `allow_net`,
    /// `label` naming its command. The new server is started before the
    /// old one is retired: when it is up the slot takes its key; when the
    /// process cannot start or its session cannot be set up, the running
    /// server (if any) stays in the slot and the call's outcome is an
    /// error saying which step failed.
    pub fn settle_spawn(&mut self, label: &str, allow_net: bool, attempt: SpawnAttempt) -> (r: Option<
        ToolCallOutcome,
    >)
        ensures
            attempt is Up ==> r is None && final(self).active == Some(BashSpawnKey { allow_net }),
            attempt matches SpawnAttempt::SpawnFailed(e) ==> *final(self) == *old(self) && (r matches Some(o)
                && o.is_error && o.payload@ == "spawn tool-bash ("@ + label@ + ", allow_net="@ + bool_text(
                allow_net,
            ) + "): "@ + e@),
            attempt matches SpawnAttempt::InitFailed(e) ==> *final(self) == *old(self) && (r matches Some(o)
                && o.is_error && o.payload@ == "init MCP session with tool-bash ("@ + label@ + ", allow_net="@
                + bool_text(allow_net) + "): "@ + e@),
    {
        let (head, e) = match attempt {
            SpawnAttempt::Up => {
                self.spawned(BashSpawnKey { allow_net });
                return None;
            },
            SpawnAttempt::SpawnFailed(e) => (String::from_str("spawn tool-bash ("), e),
            SpawnAttempt::InitFailed(e) => (String::from_str("init MCP session with tool-bash ("), e),
        };
        let mut m = head;
        m.append(label);
        m.append(", allow_net=");
        if allow_net {
            m.append("true");
        } else {
            m.append("false");
        }
        m.append("): ");
        m.append(e.as_str());
        Some(ToolCallOutcome::error(m))
    }
}

/// How an attempt to bring up a shell server ended.
#[derive(Debug, Clone, PartialEq, Eq)]
pub enum SpawnAttempt {
    /// The new server is up.
    Up,
    /// The process could not be started; the error's message.
    SpawnFailed(String),
    /// The process started but its session could not be set up; the error's
    /// message.
    InitFailed(String),
}

/// A flag as Rust displays it.
pub open spec fn bool_text(b: bool) -> Seq<char> {
    if b {
        "true"@
    } else {
        "false"@
    }
}

/// After a server with key `k` is up, a call wanting `k` reuses it, and a
/// call wanting any other key respawns.
pub proof fn law_respawn_iff_key_changes(slot: BashSlot, k: BashSpawnKey, wanted: BashSpawnKey)
    requires
        slot.active == Some(k),
    ensures
        (plan_spec(slot.active, wanted) == BashDispatch::Reuse) <==> wanted == k,
        wanted != k ==> plan_spec(slot.active, wanted) == BashDispatch::Spawn(wanted),
{
}

// ---------------------------------------------------------------------------
// Routing
// ---------------------------------------------------------------------------
/// Where a tool call goes.
#[derive(Debug, Clone, Copy, PartialEq, Eq, Structural)]
pub enum Route {
    /// The lazily spawned shell server.
    Bash,
    /// The eagerly spawned server with this index.
    Eager(usize),
    /// No server advertises the tool.
    Unknown,
}

/// Why the registry could not be assembled.
#[derive(Debug, Clone, PartialEq, Eq)]
pub enum ConnectError {
    /// Two servers (or one server twice) advertised the same tool name.
    DuplicateTool {
        /// The tool name.
        name: String,
        /// The server that advertised it the second time.
        label: String,
    },
    /// More than one shell endpoint was configured.
    MultipleBash,
}

impl ConnectError {
    /// The error's message.
    pub fn message(&self) -> (r: String)
        ensures
            r@ == match self {
                ConnectError::DuplicateTool { name, label } => "duplicate tool `"@ + name@
                    + "` advertised by "@ + label@,
                ConnectError::MultipleBash =>
                    "multiple tool-bash endpoints configured; only one is supported"@,
            },
    {
        match self {
            ConnectError::DuplicateTool { name, label } => {
                let mut s = concat3("duplicate tool `", name.as_str(), "` advertised by ");
                s.append(label.as_str());
                s
            },
            ConnectError::MultipleBash => String::from_str(
                "multiple tool-bash endpoints configured; only one is supported",
            ),
        }
    }
}

/// The routing table as tools are discovered.
#[derive(Debug, Clone)]
pub struct RoutingTable {
    /// Tool name and eager-server index, in discovery order.
    routes: Vec<(String, usize)>,
    /// Tool names owned by the shell slot, when a shell endpoint exists.
    bash_tools: Option<Vec<String>>,
    /// Number of eager servers registered.
    eager_count: usize,
    /// All tool names, in discovery order.
    names: Vec<String>,
}

/// The names of a routing list.
pub open spec fn route_names(routes: Seq<(String, usize)>) -> Seq<Seq<char>> {
    routes.map_values(|r: (String, usize)| r.0@)
}

/// The views of a list of strings.
pub open spec fn views(v: Seq<String>) -> Seq<Seq<char>> {
    v.map_values(|s: String| s@)
}

/// Does a list of names hold two equal entries?
pub open spec fn has_duplicate(s: Seq<Seq<char>>) -> bool {
    exists|i: int, j: int| 0 <= i < j < s.len() && s[i] == s[j]
}

/// The first name of `batch` that already occurs in `taken` or earlier in
/// `batch`.
pub open spec fn first_clash(taken: Seq<Seq<char>>, batch: Seq<Seq<char>>) -> Option<Seq<char>>
    decreases batch.len(),
{
    if batch.len() == 0 {
        None
    } else {
        match first_clash(taken, batch.drop_last()) {
            Some(n) => Some(n),
            None => if taken.contains(batch.last()) || batch.drop_last().contains(batch.last()) {
                Some(batch.last())
            } else {
                None
            },
        }
    }
}

impl RoutingTable {
    /// The eager route names, in discovery order.
    pub closed spec fn spec_route_names(&self) -> Seq<Seq<char>> {
        route_names(self.routes@)
    }

    /// The eager-server index of route `i`.
    pub closed spec fn spec_route_server(&self, i: int) -> usize {
        self.routes@[i].1
    }

    /// Shell tool names, when a shell endpoint was registered.
    pub closed spec fn spec_bash(&self) -> Option<Seq<Seq<char>>> {
        match self.bash_tools {
            Some(v) => Some(views(v@)),
            None => None,
        }
    }

    /// Number of eager servers.
    pub closed spec fn spec_eager_count(&self) -> nat {
        self.eager_count as nat
    }

    /// All tool names in discovery order.
    pub closed spec fn spec_names(&self) -> Seq<Seq<char>> {
        views(self.names@)
    }

    /// No eager route name occurs twice, and every route points at a
    /// registered server.
    pub closed spec fn wf(&self) -> bool {
        &&& !has_duplicate(route_names(self.routes@))
        &&& forall|i: int| 0 <= i < self.routes@.len() ==> #[trigger] self.routes@[i].1 < self.eager_count
    }

    /// Where a call to `name` goes: the shell slot first, then the eager
    /// route with that name.
    pub open spec fn route_spec(&self, name: Seq<char>) -> Route {
        if self.spec_bash() matches Some(b) && b.contains(name) {
            Route::Bash
        } else {
            match crate::capabilities::first_index_of(self.spec_route_names(), name) {
                Some(i) => Route::Eager(self.spec_route_server(i)),
                None => Route::Unknown,
            }
        }
    }

    /// An empty table.
    pub fn new() -> (t: RoutingTable)
        ensures
            t.wf(),
            t.spec_route_names().len() == 0,
            t.spec_bash() is None,
            t.spec_eager_count() == 0,
            t.spec_names().len() == 0,
    {
        let t = RoutingTable { routes: Vec::new(), bash_tools: None, eager_count: 0, names: Vec::new() };
        assert(route_names(t.routes@) =~= Seq::<Seq<char>>::empty());
        t
    }

    /// Register an eagerly spawned server advertising `tools`. Fails on the
    /// first name already routed or advertised twice by this server;
    /// otherwise every name routes to the new server's index, which is
    /// returned.
    pub fn add_eager_server(&mut self, label: &str, tools: Vec<String>) -> (r: Result<usize, ConnectError>)
        requires
            old(self).wf(),
            old(self).spec_eager_count() < usize::MAX,
        ensures
            final(self).wf(),
            match first_clash(old(self).spec_route_names(), views(tools@)) {
                Some(n) => {
                    &&& r matches Err(ConnectError::DuplicateTool { name, label: l }) && name@ == n && l@ == label@
                    &&& *final(self) == *old(self)
                },
                None => {
                    &&& r == Ok::<usize, ConnectError>(old(self).spec_eager_count() as usize)
                    &&& final(self).spec_route_names() == old(self).spec_route_names() + views(tools@)
                    &&& forall|i: int| 0 <= i < old(self).spec_route_names().len() ==> #[trigger] final(self).spec_route_server(i) == old(self).spec_route_server(i)
                    &&& forall|i: int| old(self).spec_route_names().len() <= i < final(self).spec_route_names().len() ==> #[trigger] final(self).spec_route_server(i) == old(self).spec_eager_count()
                    &&& final(self).spec_names() == old(self).spec_names() + views(tools@)
                    &&& final(self).spec_bash() == old(self).spec_bash()
                    &&& final(self).spec_eager_count() == old(self).spec_eager_count() + 1
                    &&& forall|k: int| 0 <= k < tools@.len() ==> #[trigger] final(self).route_spec(tools@[k]@) == if old(self).spec_bash() matches Some(b) && b.contains(tools@[k]@) {
                        Route::Bash
                    } else {
                        Route::Eager(old(self).spec_eager_count() as usize)
                    }
                },
            },
    {
        if let Some(k) = find_clash(&self.routes, &tools) {
            return Err(ConnectError::DuplicateTool { name: tools[k].clone(), label: String::from_str(label) });
        }
        proof {
            lemma_no_clash(route_names(self.routes@), views(tools@));
        }
        let idx = self.eager_count;
        let ghost old_routes = self.routes@;
        let ghost old_names = self.names@;
        let n = tools.len();
        for i in 0..n
            invariant
                n == tools@.len(),
                old_routes.len() + i == self.routes@.len(),
                route_names(self.routes@) == route_names(old_routes) + views(tools@).take(i as int),
                forall|j: int| 0 <= j < old_routes.len() ==> #[trigger] self.routes@[j].1 == old_routes[j].1,
                forall|j: int| old_routes.len() <= j < self.routes@.len() ==> #[trigger] self.routes@[j].1 == idx,
                views(self.names@) == views(old_names) + views(tools@).take(i as int),
                self.bash_tools == old(self).bash_tools,
                self.eager_count == idx,
                idx == old(self).eager_count,
                old_routes == old(self).routes@,
                old_names == old(self).names@,
        {
            let ghost prev_routes = self.routes@;
            let ghost prev_names = self.names@;
            self.routes.push((tools[i].clone(), idx));
            self.names.push(tools[i].clone());
            proof {
                assert(route_names(self.routes@) =~= route_names(prev_routes).push(tools@[i as int]@));
                assert(views(self.names@) =~= views(prev_names).push(tools@[i as int]@));
                assert(views(tools@).take(i + 1) =~= views(tools@).take(i as int).push(tools@[i as int]@));
                assert(route_names(self.routes@) =~= route_names(old_routes) + views(tools@).take(i + 1));
                assert(views(self.names@) =~= views(old_names) + views(tools@).take(i + 1));
            }
        }
        self.eager_count = idx + 1;
        proof {
            assert(views(tools@).take(n as int) =~= views(tools@));
            let all = route_names(self.routes@);
            lemma_concat_unique(route_names(old_routes), views(tools@));
            assert forall|k: int| 0 <= k < tools@.len() implies #[trigger] self.route_spec(tools@[k]@) == if old(self).spec_bash() matches Some(b) && b.contains(tools@[k]@) {
                Route::Bash
            } else {
                Route::Eager(idx)
            } by {
                let p = old_routes.len() + k;
                assert(all[p] == tools@[k]@);
                lemma_unique_first_index(all, p);
            }
        }
        Ok(idx)
    }

    /// Register the shell endpoint advertising `tools`. Fails on the first
    /// name already routed or advertised twice, then when a shell endpoint
    /// is already registered.
    pub fn add_bash_server(&mut self, label: &str, tools: Vec<String>) -> (r: Result<(), ConnectError>)
        requires
            old(self).wf(),
        ensures
            final(self).wf(),
            match first_clash(old(self).spec_route_names(), views(tools@)) {
                Some(n) => {
                    &&& r matches Err(ConnectError::DuplicateTool { name, label: l }) && name@ == n && l@ == label@
                    &&& *final(self) == *old(self)
                },
                None => if old(self).spec_bash() is Some {
                    r == Err::<(), ConnectError>(ConnectError::MultipleBash) && *final(self) == *old(self)
                } else {
                    &&& r is Ok
                    &&& final(self).spec_bash() == Some(views(tools@))
                    &&& final(self).spec_names() == old(self).spec_names() + views(tools@)
                    &&& final(self).spec_route_names() == old(self).spec_route_names()
                    &&& forall|i: int| 0 <= i < old(self).spec_route_names().len() ==> #[trigger] final(self).spec_route_server(i) == old(self).spec_route_server(i)
                    &&& final(self).spec_eager_count() == old(self).spec_eager_count()
                    &&& forall|k: int| 0 <= k < tools@.len() ==> #[trigger] final(self).route_spec(tools@[k]@) == Route::Bash
                },
            },
    {
        if let Some(k) = find_clash(&self.routes, &tools) {
            return Err(ConnectError::DuplicateTool { name: tools[k].clone(), label: String::from_str(label) });
        }
        if self.bash_tools.is_some() {
            return Err(ConnectError::MultipleBash);
        }
        let ghost old_names = self.names@;
        let n = tools.len();
        for i in 0..n
            invariant
                n == tools@.len(),
                views(self.names@) == views(old_names) + views(tools@).take(i as int),
                self.routes == old(self).routes,
                self.bash_tools == old(self).bash_tools,
                self.eager_count == old(self).eager_count,
                old_names == old(self).names@,
        {
            let ghost prev_names = self.names@;
            self.names.push(tools[i].clone());
            proof {
                assert(views(self.names@) =~= views(prev_names).push(tools@[i as int]@));
                assert(views(tools@).take(i + 1) =~= views(tools@).take(i as int).push(tools@[i as int]@));
                assert(views(self.names@) =~= views(old_names) + views(tools@).take(i + 1));
            }
        }
        proof {
            assert(views(tools@).take(n as int) =~= views(tools@));
        }
        self.bash_tools = Some(tools);
        proof {
            assert forall|k: int| 0 <= k < tools@.len() implies #[trigger] self.route_spec(tools@[k]@) == Route::Bash by {
                assert(views(tools@)[k] == tools@[k]@);
            }
        }
        Ok(())
    }

    /// Where a call to `name` goes.
    pub fn route(&self, name: &str) -> (r: Route)
        ensures
            r == self.route_spec(name@),
    {
        let target = String::from_str(name);
        let in_bash = match &self.bash_tools {
            Some(b) => {
                let n = b.len();
                let h = holds_name(b, n, &target);
                proof {
                    assert(views(b@).take(n as int) =~= views(b@));
                }
                h
            },
            None => false,
        };
        assert(in_bash == (self.spec_bash() matches Some(bb) && bb.contains(name@)));
        if in_bash {
            return Route::Bash;
        }
        proof {
            crate::capabilities::lemma_first_index_of(route_names(self.routes@), name@);
        }
        let found = find_route(&self.routes, &target);
        assert(target@ == name@);
        match found {
            Some(i) => {
                assert(crate::capabilities::first_index_of(self.spec_route_names(), name@) == Some(i as int));
                Route::Eager(self.routes[i].1)
            },
            None => {
                assert(crate::capabilities::first_index_of(self.spec_route_names(), name@) is None);
                Route::Unknown
            },
        }
    }

    /// All tool names, in discovery order.
    pub fn tool_names(&self) -> (r: &Vec<String>)
        ensures
            views(r@) == self.spec_names(),
    {
        &self.names
    }
}

/// No clash: no batch name is taken, and none repeats an earlier one.
proof fn lemma_no_clash(taken: Seq<Seq<char>>, batch: Seq<Seq<char>>)
    requires
        first_clash(taken, batch) is None,
    ensures
        forall|k: int| 0 <= k < batch.len() ==> !taken.contains(#[trigger] batch[k]),
        !has_duplicate(batch),
    decreases batch.len(),
{
    if batch.len() > 0 {
        let init = batch.drop_last();
        lemma_no_clash(taken, init);
        assert forall|k: int| 0 <= k < batch.len() implies !taken.contains(#[trigger] batch[k]) by {
            if k < batch.len() - 1 {
                assert(batch[k] == init[k]);
            }
        }
        if has_duplicate(batch) {
            let (i, j) = choose|i: int, j: int| 0 <= i < j < batch.len() && batch[i] == batch[j];
            if j == batch.len() - 1 {
                assert(init[i] == batch[i]);
                assert(init.contains(batch.last()));
            } else {
                assert(init[i] == batch[i] && init[j] == batch[j]);
                assert(has_duplicate(init));
            }
        }
    }
}

/// Two duplicate-free lists with no common element concatenate to a
/// duplicate-free list.
proof fn lemma_concat_unique(a: Seq<Seq<char>>, b: Seq<Seq<char>>)
    requires
        !has_duplicate(a),
        !has_duplicate(b),
        forall|k: int| 0 <= k < b.len() ==> !a.contains(#[trigger] b[k]),
    ensures
        !has_duplicate(a + b),
{
    let s = a + b;
    if has_duplicate(s) {
        let (i, j) = choose|i: int, j: int| 0 <= i < j < s.len() && s[i] == s[j];
        if j < a.len() {
            assert(a[i] == a[j]);
        } else if i >= a.len() {
            assert(b[i - a.len()] == b[j - a.len()]);
        } else {
            assert(a[i] == b[j - a.len()]);
            assert(a.contains(b[j - a.len()]));
        }
    }
}

/// In a duplicate-free list the first occurrence of `s[p]` is at `p`.
proof fn lemma_unique_first_index(s: Seq<Seq<char>>, p: int)
    requires
        !has_duplicate(s),
        0 <= p < s.len(),
    ensures
        crate::capabilities::first_index_of(s, s[p]) == Some(p),
{
    crate::capabilities::lemma_first_index_of(s, s[p]);
    let k = crate::capabilities::first_index_of(s, s[p])->0;
    if k != p {
        if k < p {
            assert(s[k] == s[p]);
        } else {
            assert(s[p] == s[k]);
        }
    }
}

/// Index of the first route named `name`.
fn find_route(routes: &Vec<(String, usize)>, name: &String) -> (r: Option<usize>)
    ensures
        match r {
            Some(i) => i < routes@.len() && crate::capabilities::first_index_of(route_names(routes@), name@) == Some(i as int),
            None => crate::capabilities::first_index_of(route_names(routes@), name@) is None,
        },
{
    let n = routes.len();
    for i in 0..n
        invariant
            n == routes@.len(),
            forall|j: int| 0 <= j < i ==> #[trigger] route_names(routes@)[j] != name@,
    {
        if routes[i].0 == *name {
            proof {
                assert(route_names(routes@)[i as int] == name@);
                crate::capabilities::lemma_first_index_of(route_names(routes@), name@);
                if let Some(k) = crate::capabilities::first_index_of(route_names(routes@), name@) {
                    if k < i {
                        assert(route_names(routes@)[k] != name@);
                    }
                }
            }
            return Some(i);
        }
    }
    proof {
        crate::capabilities::lemma_first_index_of(route_names(routes@), name@);
    }
    None
}

/// Does `v[..upto]` hold `name`?
fn holds_name(v: &Vec<String>, upto: usize, name: &String) -> (r: bool)
    requires
        upto <= v@.len(),
    ensures
        r == views(v@).take(upto as int).contains(name@),
{
    for i in 0..upto
        invariant
            upto <= v@.len(),
            forall|j: int| 0 <= j < i ==> #[trigger] views(v@)[j] != name@,
    {
        if v[i] == *name {
            assert(views(v@).take(upto as int)[i as int] == name@);
            return true;
        }
    }
    false
}

/// `first_clash` grows one name at a time.
proof fn lemma_first_clash_step(taken: Seq<Seq<char>>, batch: Seq<Seq<char>>, i: int)
    requires
        0 <= i < batch.len(),
    ensures
        first_clash(taken, batch.take(i + 1)) == match first_clash(taken, batch.take(i)) {
            Some(n) => Some(n),
            None => if taken.contains(batch[i]) || batch.take(i).contains(batch[i]) {
                Some(batch[i])
            } else {
                None
            },
        },
{
    assert(batch.take(i + 1).drop_last() =~= batch.take(i));
}

/// The first name of `batch` clashing with the eager routes or with an
/// earlier name of `batch`.
fn find_clash(routes: &Vec<(String, usize)>, batch: &Vec<String>) -> (r: Option<usize>)
    ensures
        match first_clash(route_names(routes@), views(batch@)) {
            Some(n) => r matches Some(k) && k < batch@.len() && batch@[k as int]@ == n,
            None => r is None,
        },
{
    let n = batch.len();
    for i in 0..n
        invariant
            n == batch@.len(),
            first_clash(route_names(routes@), views(batch@).take(i as int)) is None,
    {
        let name = &batch[i];
        let in_routes = find_route(routes, name).is_some();
        let earlier = holds_name(batch, i, name);
        proof {
            lemma_first_clash_step(route_names(routes@), views(batch@), i as int);
            crate::capabilities::lemma_first_index_of(route_names(routes@), name@);
            assert(views(batch@)[i as int] == name@);
        }
        if in_routes || earlier {
            proof {
                let taken = route_names(routes@);
                if in_routes {
                    let k = crate::capabilities::first_index_of(taken, name@)->0;
                    assert(taken[k] == name@);
                    assert(taken.contains(name@));
                }
                assert(views(batch@).take(i as int + 1) =~= views(batch@).take(i as int + 1));
                lemma_clash_prefix(taken, views(batch@), i as int + 1);
            }
            return Some(i);
        }
    }
    assert(views(batch@).take(n as int) =~= views(batch@));
    None
}

/// Once a prefix clashes, the whole batch clashes on the same name.
proof fn lemma_clash_prefix(taken: Seq<Seq<char>>, batch: Seq<Seq<char>>, k: int)
    requires
        0 <= k <= batch.len(),
        first_clash(taken, batch.take(k)) is Some,
    ensures
        first_clash(taken, batch) == first_clash(taken, batch.take(k)),
    decreases batch.len() - k,
{
    if k < batch.len() {
        lemma_first_clash_step(taken, batch, k);
        lemma_clash_prefix(taken, batch, k + 1);
    } else {
        assert(batch.take(k) =~= batch);
    }
}

// ---------------------------------------------------------------------------
// Call outcomes
// ---------------------------------------------------------------------------
/// Outcome of one tool dispatch.
#[derive(Debug, Clone, PartialEq, Eq)]
pub struct ToolCallOutcome {
    /// True if the tool reported failure or the transport failed.
    pub is_error: bool,
    /// Text payload for the `tool_result` content block.
    pub payload: String,
}

/// What a tool server answered, as the registry reads it.
#[derive(Debug, Clone, PartialEq, Eq)]
pub struct CallResult {
    /// Structured content, when present: its JSON text, or `None` when it
    /// could not be serialized.
    pub structured: Option<Option<String>>,
    /// The content items in order: the text of each text item, `None` for
    /// any other kind.
    pub contents: Vec<Option<String>>,
    /// The server's error flag.
    pub is_error: Option<bool>,
}

/// The kinds of JSON value.
#[derive(Debug, Clone, Copy, PartialEq, Eq, Structural)]
pub enum JsonKind {
    /// `null`.
    Null,
    /// `true` / `false`.
    Bool,
    /// A number.
    Number,
    /// A string.
    String,
    /// An array.
    Array,
    /// An object.
    Object,
}

/// The text items joined by newlines; a newline is only written between
/// two pieces when something was already written.
pub open spec fn joined_texts(items: Seq<Option<String>>) -> Seq<char>
    decreases items.len(),
{
    if items.len() == 0 {
        Seq::empty()
    } else {
        let acc = joined_texts(items.drop_last());
        match items.last() {
            Some(t) => if acc.len() == 0 {
                t@
            } else {
                acc.push('\n') + t@
            },
            None => acc,
        }
    }
}

/// The payload of a tool result: the structured content's JSON (or a
/// placeholder when it cannot be serialized), else the joined text items.
pub open spec fn payload_spec(r: CallResult) -> Seq<char> {
    match r.structured {
        Some(Some(json)) => json@,
        Some(None) => "<unrenderable JSON>"@,
        None => joined_texts(r.contents@),
    }
}

/// Structured content wins: when a result carries structured content that
/// serialized, the payload is exactly its JSON text, whatever text items
/// come with it.
pub proof fn law_structured_content_is_the_payload(r: CallResult, json: String)
    requires
        r.structured == Some(Some(json)),
    ensures
        payload_spec(r) == json@,
{
}

/// Without structured content the payload is made of the text items only:
/// a result whose only items are non-text ones gives an empty payload, and
/// a single text item is the payload as it is.
pub proof fn law_text_items_make_the_payload(r: CallResult)
    requires
        r.structured is None,
    ensures
        (forall|i: int| 0 <= i < r.contents@.len() ==> #[trigger] r.contents@[i] is None) ==> payload_spec(r)
            == Seq::<char>::empty(),
        r.contents@.len() == 1 && r.contents@[0] is Some ==> payload_spec(r) == r.contents@[0]->0@,
{
    lemma_joined_texts_no_text(r.contents@);
    if r.contents@.len() == 1 {
        assert(r.contents@.drop_last() =~= Seq::<Option<String>>::empty());
        assert(joined_texts(r.contents@.drop_last()) == Seq::<char>::empty());
    }
}

/// Joining items none of which is text gives nothing.
proof fn lemma_joined_texts_no_text(items: Seq<Option<String>>)
    ensures
        (forall|i: int| 0 <= i < items.len() ==> #[trigger] items[i] is None) ==> joined_texts(items)
            == Seq::<char>::empty(),
    decreases items.len(),
{
    if items.len() > 0 {
        lemma_joined_texts_no_text(items.drop_last());
        if forall|i: int| 0 <= i < items.len() ==> #[trigger] items[i] is None {
            assert forall|i: int| 0 <= i < items.drop_last().len() implies #[trigger] items.drop_last()[i] is None by {
                assert(items.drop_last()[i] == items[i]);
            }
            assert(items[items.len() - 1] is None);
        }
    }
}

/// The name of a JSON kind as it appears in messages.
pub open spec fn kind_name(k: JsonKind) -> Seq<char> {
    match k {
        JsonKind::Null => "null"@,
        JsonKind::Bool => "bool"@,
        JsonKind::Number => "number"@,
        JsonKind::String => "string"@,
        JsonKind::Array => "array"@,
        JsonKind::Object => "object"@,
    }
}

fn kind_text(k: JsonKind) -> (r: &'static str)
    ensures
        r@ == kind_name(k),
{
    match k {
        JsonKind::Null => "null",
        JsonKind::Bool => "bool",
        JsonKind::Number => "number",
        JsonKind::String => "string",
        JsonKind::Array => "array",
        JsonKind::Object => "object",
    }
}

/// Join the text items of a tool result with newlines.
pub fn join_texts(items: &Vec<Option<String>>) -> (r: String)
    ensures
        r@ == joined_texts(items@),
{
    let mut out = String::new();
    let mut nonempty = false;
    let n = items.len();
    for i in 0..n
        invariant
            n == items@.len(),
            out@ == joined_texts(items@.take(i as int)),
            nonempty == (out@.len() > 0),
    {
        proof {
            assert(items@.take(i + 1).drop_last() =~= items@.take(i as int));
        }
        match &items[i] {
            Some(t) => {
                if nonempty {
                    push_char(&mut out, '\n');
                }
                out.append(t.as_str());
                nonempty = nonempty || !t.as_str().is_empty();
            },
            None => {},
        }
    }
    proof {
        assert(items@.take(n as int) =~= items@);
    }
    out
}

impl ToolCallOutcome {
    /// A successful outcome.
    pub fn success(payload: String) -> (o: Self)
        ensures
            !o.is_error,
            o.payload == payload,
    {
        ToolCallOutcome { is_error: false, payload }
    }

    /// A failed outcome.
    pub fn error(payload: String) -> (o: Self)
        ensures
            o.is_error,
            o.payload == payload,
    {
        ToolCallOutcome { is_error: true, payload }
    }

    /// Normalize what a server answered for tool `name`: a result is an
    /// error exactly when the server flagged it; a transport failure is an
    /// error naming the tool.
    pub fn from_call_result(name: &str, result: Result<CallResult, String>) -> (o: Self)
        ensures
            match result {
                Ok(r) => o.is_error == (r.is_error == Some(true)) && o.payload@ == payload_spec(r),
                Err(e) => o.is_error && o.payload@ == "tool transport error on "@ + name@ + ": "@ + e@,
            },
    {
        match result {
            Ok(r) => {
                let payload = match &r.structured {
                    Some(Some(json)) => json.clone(),
                    Some(None) => String::from_str("<unrenderable JSON>"),
                    None => join_texts(&r.contents),
                };
                let failed = match r.is_error {
                    Some(b) => b,
                    None => false,
                };
                if failed {
                    ToolCallOutcome::error(payload)
                } else {
                    ToolCallOutcome::success(payload)
                }
            },
            Err(e) => {
                let mut p = concat3("tool transport error on ", name, ": ");
                p.append(e.as_str());
                ToolCallOutcome::error(p)
            },
        }
    }

    /// The outcome for a call whose arguments, of kind `k`, are not a JSON
    /// object; `None` when they are one.
    pub fn bad_arguments(name: &str, k: JsonKind) -> (o: Option<Self>)
        ensures
            o.is_none() <==> k == JsonKind::Object,
            o matches Some(out) ==> out.is_error && out.payload@ == "tool `"@ + name@
                + "` arguments must be a JSON object, got "@ + kind_name(k),
    {
        if k == JsonKind::Object {
            None
        } else {
            let mut p = concat3("tool `", name, "` arguments must be a JSON object, got ");
            p.append(kind_text(k));
            Some(ToolCallOutcome::error(p))
        }
    }

    /// The outcome for a call naming no advertised tool.
    pub fn unknown_tool(name: &str) -> (o: Self)
        ensures
            o.is_error,
            o.payload@ == "unknown tool: "@ + name@,
    {
        let mut p = String::from_str("unknown tool: ");
        p.append(name);
        ToolCallOutcome::error(p)
    }
}

} // verus!
