//! Unix path components, as `std::path::Path::components` yields them, and
//! the prefix and containment tests built on them.
//!
//! Components: a leading `/` gives `Root`; a leading `.` segment gives
//! `Cur`; every later segment that is empty or `.` is dropped; `..` gives
//! `Parent`; anything else is `Normal`.
use vstd::prelude::*;

use crate::text::{chars_of, seq_eq};

verus! {

/// One path component.
pub enum Comp {
    /// The root directory (`/` at the start).
    Root,
    /// A leading `.`.
    Cur,
    /// `..`.
    Parent,
    /// Any other segment.
    Normal(Seq<char>),
}

/// Executable path component.
#[derive(Debug, Clone, PartialEq, Eq)]
pub enum Component {
    /// The root directory (`/` at the start).
    RootDir,
    /// A leading `.`.
    CurDir,
    /// `..`.
    ParentDir,
    /// Any other segment.
    Normal(String),
}

impl Component {
    /// The model of the component.
    pub open spec fn model(&self) -> Comp {
        match self {
            Component::RootDir => Comp::Root,
            Component::CurDir => Comp::Cur,
            Component::ParentDir => Comp::Parent,
            Component::Normal(s) => Comp::Normal(s@),
        }
    }
}

/// The models of a component list.
pub open spec fn comps_model(v: Seq<Component>) -> Seq<Comp> {
    v.map_values(|c: Component| c.model())
}

/// A segment after the first one.
pub open spec fn seg_comp(seg: Seq<char>) -> Seq<Comp> {
    if seg.len() == 0 || seg == "."@ {
        Seq::empty()
    } else if seg == ".."@ {
        seq![Comp::Parent]
    } else {
        seq![Comp::Normal(seg)]
    }
}

/// The first segment, when a `/` follows it.
pub open spec fn lead_comp_slash(seg: Seq<char>) -> Seq<Comp> {
    if seg.len() == 0 {
        seq![Comp::Root]
    } else if seg == "."@ {
        seq![Comp::Cur]
    } else {
        seg_comp(seg)
    }
}

/// The first segment, when it is the whole path.
pub open spec fn lead_comp_end(seg: Seq<char>) -> Seq<Comp> {
    if seg == "."@ {
        seq![Comp::Cur]
    } else {
        seg_comp(seg)
    }
}

/// Scanner state: components so far, current segment, still in the first segment.
pub type PathScan = (Seq<Comp>, Seq<char>, bool);

/// Feed one character of a path.
pub open spec fn path_feed(st: PathScan, c: char) -> PathScan {
    if c == '/' {
        (st.0 + if st.2 {
            lead_comp_slash(st.1)
        } else {
            seg_comp(st.1)
        }, Seq::empty(), false)
    } else {
        (st.0, st.1.push(c), st.2)
    }
}

/// Feed a whole path.
pub open spec fn path_feed_all(s: Seq<char>) -> PathScan
    decreases s.len(),
{
    if s.len() == 0 {
        (Seq::empty(), Seq::empty(), true)
    } else {
        path_feed(path_feed_all(s.drop_last()), s.last())
    }
}

/// The components of a path.
pub open spec fn components(s: Seq<char>) -> Seq<Comp> {
    let st = path_feed_all(s);
    st.0 + if st.2 {
        lead_comp_end(st.1)
    } else {
        seg_comp(st.1)
    }
}

/// `Path::starts_with`: the components of `base` are a prefix of those of `p`.
pub open spec fn path_starts_with(p: Seq<char>, base: Seq<char>) -> bool {
    let a = components(p);
    let b = components(base);
    b.len() <= a.len() && a.take(b.len() as int) == b
}

/// `Path::is_absolute` on Unix: the path starts with `/`.
pub open spec fn is_absolute(p: Seq<char>) -> bool {
    p.len() > 0 && p[0] == '/'
}

/// Walk relative components tracking depth below the start; `None` once a
/// `..` climbs above the start or a root component appears.
pub open spec fn depth_walk(comps: Seq<Comp>) -> Option<int>
    decreases comps.len(),
{
    if comps.len() == 0 {
        Some(0)
    } else {
        match depth_walk(comps.drop_last()) {
            None => None,
            Some(d) => match comps.last() {
                Comp::Normal(_) => Some(d + 1),
                Comp::Cur => Some(d),
                Comp::Parent => if d - 1 < 0 {
                    None
                } else {
                    Some(d - 1)
                },
                Comp::Root => None,
            },
        }
    }
}

/// Does path `p` stay under `root`? Absolute paths must start with `root`;
/// relative ones must never climb above their starting directory.
pub open spec fn is_under_spec(p: Seq<char>, root: Seq<char>) -> bool {
    if is_absolute(p) {
        path_starts_with(p, root)
    } else {
        depth_walk(components(p)) is Some
    }
}

// ---------------------------------------------------------------------------
// Lemmas
// ---------------------------------------------------------------------------
/// Every path starts with itself.
pub proof fn lemma_starts_with_self(p: Seq<char>)
    ensures
        path_starts_with(p, p),
{
    assert(components(p).take(components(p).len() as int) =~= components(p));
}

proof fn lemma_depth_walk_nonneg(comps: Seq<Comp>)
    ensures
        depth_walk(comps) matches Some(d) ==> 0 <= d <= comps.len(),
    decreases comps.len(),
{
    if comps.len() > 0 {
        lemma_depth_walk_nonneg(comps.drop_last());
    }
}

// ---------------------------------------------------------------------------
// Implementation
// ---------------------------------------------------------------------------
fn push_seg(out: &mut Vec<Component>, seg: &Vec<char>, lead: bool, slash: bool)
    ensures
        comps_model(final(out)@) == comps_model(old(out)@) + if lead {
            if slash {
                lead_comp_slash(seg@)
            } else {
                lead_comp_end(seg@)
            }
        } else {
            seg_comp(seg@)
        },
{
    let ghost before = comps_model(out@);
    let dot = chars_of(".");
    let dotdot = chars_of("..");
    proof {
        reveal_strlit(".");
        reveal_strlit("..");
    }
    if lead && slash && seg.len() == 0 {
        out.push(Component::RootDir);
        assert(comps_model(out@) =~= before + seq![Comp::Root]);
    } else if lead && seq_eq(seg, &dot) {
        out.push(Component::CurDir);
        assert(comps_model(out@) =~= before + seq![Comp::Cur]);
    } else if seg.len() == 0 || seq_eq(seg, &dot) {
        assert(comps_model(out@) =~= before + Seq::<Comp>::empty());
    } else if seq_eq(seg, &dotdot) {
        out.push(Component::ParentDir);
        assert(comps_model(out@) =~= before + seq![Comp::Parent]);
    } else {
        let s = crate::text::string_from(seg);
        out.push(Component::Normal(s));
        assert(comps_model(out@) =~= before + seq![Comp::Normal(seg@)]);
    }
}

/// The components of a path (`Path::components` on Unix).
pub fn path_components(p: &str) -> (r: Vec<Component>)
    ensures
        comps_model(r@) == components(p@),
{
    let cs = chars_of(p);
    let mut out: Vec<Component> = Vec::new();
    let mut seg: Vec<char> = Vec::new();
    let mut lead = true;
    let n = cs.len();
    assert(comps_model(out@) =~= Seq::<Comp>::empty());
    for i in 0..n
        invariant
            n == cs@.len(),
            cs@ == p@,
            path_feed_all(cs@.take(i as int)) == (comps_model(out@), seg@, lead),
    {
        let c = cs[i];
        assert(cs@.take(i + 1).drop_last() =~= cs@.take(i as int));
        if c == '/' {
            push_seg(&mut out, &seg, lead, true);
            seg = Vec::new();
            lead = false;
        } else {
            seg.push(c);
        }
    }
    assert(cs@.take(n as int) =~= cs@);
    push_seg(&mut out, &seg, lead, false);
    out
}

fn comp_eq(a: &Component, b: &Component) -> (r: bool)
    ensures
        r == (a.model() == b.model()),
{
    match (a, b) {
        (Component::RootDir, Component::RootDir) => true,
        (Component::CurDir, Component::CurDir) => true,
        (Component::ParentDir, Component::ParentDir) => true,
        (Component::Normal(x), Component::Normal(y)) => {
            let xc = chars_of(x.as_str());
            let yc = chars_of(y.as_str());
            seq_eq(&xc, &yc)
        },
        _ => false,
    }
}

/// `Path::new(p).starts_with(base)`.
pub fn starts_with_path(p: &str, base: &str) -> (r: bool)
    ensures
        r == path_starts_with(p@, base@),
{
    let a = path_components(p);
    let b = path_components(base);
    assert(comps_model(a@).len() == a@.len());
    assert(comps_model(b@).len() == b@.len());
    if b.len() > a.len() {
        return false;
    }
    let n = b.len();
    for i in 0..n
        invariant
            n == b@.len(),
            n <= a@.len(),
            comps_model(a@) == components(p@),
            comps_model(b@) == components(base@),
            forall|j: int| 0 <= j < i ==> a@[j].model() == b@[j].model(),
    {
        if !comp_eq(&a[i], &b[i]) {
            assert(comps_model(a@).take(n as int)[i as int] == a@[i as int].model());
            return false;
        }
    }
    assert(comps_model(a@).take(n as int) =~= comps_model(b@));
    true
}

/// Does path `p` stay under `root`? See [`is_under_spec`].
pub fn is_under(p: &str, root: &str) -> (r: bool)
    ensures
        r == is_under_spec(p@, root@),
{
    let cs = chars_of(p);
    if cs.len() > 0 && cs[0] == '/' {
        return starts_with_path(p, root);
    }
    let comps = path_components(p);
    let ghost m = comps_model(comps@);
    let mut depth: usize = 0;
    let n = comps.len();
    assert(m.take(0) =~= Seq::<Comp>::empty());
    for i in 0..n
        invariant
            n == comps@.len(),
            m == comps_model(comps@),
            m == components(p@),
            !is_absolute(p@),
            depth <= i,
            depth_walk(m.take(i as int)) == Some(depth as int),
    {
        assert(m.take(i + 1).drop_last() =~= m.take(i as int));
        assert(m.take(i + 1).last() == comps@[i as int].model());
        match &comps[i] {
            Component::Normal(_) => {
                depth = depth + 1;
            },
            Component::CurDir => {},
            Component::ParentDir => {
                if depth == 0 {
                    proof {
                        lemma_none_stays_none(m, i as int + 1);
                    }
                    return false;
                }
                depth = depth - 1;
            },
            Component::RootDir => {
                proof {
                    lemma_none_stays_none(m, i as int + 1);
                }
                return false;
            },
        }
    }
    assert(m.take(n as int) =~= m);
    true
}

proof fn lemma_none_stays_none(m: Seq<Comp>, k: int)
    requires
        0 <= k <= m.len(),
        depth_walk(m.take(k)) is None,
    ensures
        depth_walk(m) is None,
    decreases m.len() - k,
{
    if k < m.len() {
        assert(m.take(k + 1).drop_last() =~= m.take(k));
        lemma_none_stays_none(m, k + 1);
    } else {
        assert(m.take(k) =~= m);
    }
}

} // verus!
