//! Canonical list of sensitive paths that tool spawns must not touch.
//!
//! [`is_sensitive_path`] is the in-process check applied to path strings in
//! tool calls; [`sensitive_path_candidates`] is the list under `$HOME` the
//! OS sandbox overlays (the caller keeps the ones that exist on disk).
use vstd::prelude::*;

use crate::text::{chars_of, concat2, concat3, contains, ends_with, has_prefix, has_suffix,
    contains_seq, occurs_at, seq_eq, starts_with, string_from};

verus! {

/// `s` with every backslash turned into a forward slash.
pub open spec fn normalize_slashes(s: Seq<char>) -> Seq<char> {
    s.map_values(|c: char| if c == '\\' { '/' } else { c })
}

/// The text after the last `/` (all of `s` if it has none).
pub open spec fn last_segment(s: Seq<char>) -> Seq<char>
    decreases s.len(),
{
    if s.len() == 0 || s.last() == '/' {
        Seq::empty()
    } else {
        last_segment(s.drop_last()).push(s.last())
    }
}

/// A final segment naming a dotenv file: `.env` or `.env.*`.
pub open spec fn is_dotenv_name(last: Seq<char>) -> bool {
    last == ".env"@ || has_prefix(last, ".env."@)
}

/// `seg` appears in `p` as a whole path segment (or segment run).
pub open spec fn segment_hit(p: Seq<char>, seg: Seq<char>) -> bool {
    ||| p == seg
    ||| has_prefix(p, seg + "/"@)
    ||| contains_seq(p, "/"@ + seg + "/"@)
    ||| has_suffix(p, "/"@ + seg)
}

/// The sensitive directory names under `$HOME`.
pub open spec fn sensitive_segments() -> Seq<Seq<char>> {
    seq![".ssh"@, ".aws"@, ".gnupg"@, ".netrc"@, ".mozilla"@, "google-chrome"@]
}

/// The in-process sensitivity test: dotenv files anywhere, any of the
/// sensitive segments, or the `.config/gh` segment pair.
pub open spec fn is_sensitive_spec(path: Seq<char>) -> bool {
    let s = normalize_slashes(path);
    ||| is_dotenv_name(last_segment(s))
    ||| exists|i: int| 0 <= i < sensitive_segments().len() && segment_hit(s, sensitive_segments()[i])
    ||| segment_hit(s, ".config/gh"@)
}

/// A sensitive directory name followed by `/` and anything is flagged: a
/// relative path such as `.ssh/id_rsa` or `.config/gh/hosts.yml` (a call
/// run from the home directory) names a sensitive location as surely as
/// the absolute one does.
pub proof fn law_paths_inside_a_sensitive_directory_are_sensitive(k: int, tail: Seq<char>)
    requires
        0 <= k < 7,
    ensures
        is_sensitive_spec(
            seq![".ssh"@, ".aws"@, ".gnupg"@, ".netrc"@, ".mozilla"@, "google-chrome"@, ".config/gh"@][k] + "/"@
                + tail,
        ),
{
    reveal_strlit(".ssh");
    reveal_strlit(".aws");
    reveal_strlit(".gnupg");
    reveal_strlit(".netrc");
    reveal_strlit(".mozilla");
    reveal_strlit("google-chrome");
    reveal_strlit(".config/gh");
    reveal_strlit("/");
    let list = seq![".ssh"@, ".aws"@, ".gnupg"@, ".netrc"@, ".mozilla"@, "google-chrome"@, ".config/gh"@];
    let seg = list[k];
    let head = seg + "/"@;
    assert(normalize_slashes(head) =~= head);
    lemma_normalize_concat(head, tail);
    let s = normalize_slashes(head + tail);
    assert(s.take(head.len() as int) =~= head);
    assert(segment_hit(s, seg));
    let segs = sensitive_segments();
    if k < 6 {
        assert(segs[k] == seg);
    }
}

/// A sensitive directory name is flagged wherever it stands as a whole
/// segment: alone, at the end of a path, or in the middle of one.
pub proof fn law_sensitive_directory_anywhere(k: int, head: Seq<char>, tail: Seq<char>)
    requires
        0 <= k < 7,
    ensures
        ({
            let seg = seq![".ssh"@, ".aws"@, ".gnupg"@, ".netrc"@, ".mozilla"@, "google-chrome"@, ".config/gh"@][k];
            &&& is_sensitive_spec(seg)
            &&& is_sensitive_spec(head + "/"@ + seg)
            &&& is_sensitive_spec(head + "/"@ + seg + "/"@ + tail)
        }),
{
    reveal_strlit(".ssh");
    reveal_strlit(".aws");
    reveal_strlit(".gnupg");
    reveal_strlit(".netrc");
    reveal_strlit(".mozilla");
    reveal_strlit("google-chrome");
    reveal_strlit(".config/gh");
    reveal_strlit("/");
    let list = seq![".ssh"@, ".aws"@, ".gnupg"@, ".netrc"@, ".mozilla"@, "google-chrome"@, ".config/gh"@];
    let seg = list[k];
    let segs = sensitive_segments();
    if k < 6 {
        assert(segs[k] == seg);
    }
    let framed = "/"@ + seg + "/"@;
    let ending = "/"@ + seg;
    assert(normalize_slashes(seg) =~= seg);
    assert(normalize_slashes(framed) =~= framed);
    assert(normalize_slashes(ending) =~= ending);
    assert(segment_hit(normalize_slashes(seg), seg));
    let nh = normalize_slashes(head);
    lemma_normalize_concat(head, ending);
    assert(head + "/"@ + seg =~= head + ending);
    let s2 = nh + ending;
    assert(s2.skip(s2.len() - ending.len()) =~= ending);
    assert(segment_hit(normalize_slashes(head + "/"@ + seg), seg));
    lemma_normalize_concat(head, framed);
    lemma_normalize_concat(head + framed, tail);
    assert(head + "/"@ + seg + "/"@ + tail =~= head + framed + tail);
    let s3 = nh + framed + normalize_slashes(tail);
    assert(normalize_slashes(head + "/"@ + seg + "/"@ + tail) =~= s3);
    assert(s3.subrange(nh.len() as int, (nh.len() + framed.len()) as int) =~= framed);
    assert(occurs_at(s3, framed, nh.len() as int));
    assert(segment_hit(s3, seg));
}

/// `PathBuf::join` of a relative `rel` onto `base`.
pub open spec fn join_path(base: Seq<char>, rel: Seq<char>) -> Seq<char> {
    if base.len() == 0 {
        rel
    } else if base.last() == '/' {
        base + rel
    } else {
        base + "/"@ + rel
    }
}

/// The relative locations, under `$HOME`, of the sensitive paths.
pub open spec fn sensitive_home_entries(macos: bool) -> Seq<Seq<char>> {
    let common = seq![
        ".ssh"@,
        ".aws"@,
        ".gnupg"@,
        ".netrc"@,
        ".config/gh"@,
        ".mozilla"@,
        ".config/google-chrome"@,
    ];
    if macos {
        common + seq![
            "Library/Application Support/Firefox"@,
            "Library/Application Support/Google/Chrome"@,
        ]
    } else {
        common
    }
}

/// Normalizing slashes works piecewise.
proof fn lemma_normalize_concat(a: Seq<char>, b: Seq<char>)
    ensures
        normalize_slashes(a + b) == normalize_slashes(a) + normalize_slashes(b),
{
    assert(normalize_slashes(a + b) =~= normalize_slashes(a) + normalize_slashes(b));
}

/// A path ending in `/` followed by `tail` (or equal to `tail`), with no
/// backslash in `tail`, normalizes to something ending in `/` + `tail`
/// (or equal to `tail`).
proof fn lemma_joined_tail(home: Seq<char>, tail: Seq<char>)
    requires
        forall|k: int| 0 <= k < tail.len() ==> tail[k] != '\\',
    ensures
        ({
            let s = normalize_slashes(join_path(home, tail));
            s == tail || has_suffix(s, "/"@ + tail)
        }),
{
    reveal_strlit("/");
    assert(normalize_slashes(tail) =~= tail);
    if home.len() == 0 {
    } else if home.last() == '/' {
        lemma_normalize_concat(home, tail);
        let nh = normalize_slashes(home);
        assert(nh.last() == '/');
        let s = nh + tail;
        assert(s.skip(s.len() - ("/"@ + tail).len()) =~= "/"@ + tail);
    } else {
        lemma_normalize_concat(home + "/"@, tail);
        lemma_normalize_concat(home, "/"@);
        assert(normalize_slashes("/"@) =~= "/"@);
        let s = normalize_slashes(home) + "/"@ + tail;
        assert(normalize_slashes(join_path(home, tail)) =~= s);
        assert(s.skip(s.len() - ("/"@ + tail).len()) =~= "/"@ + tail);
    }
}

/// Every sensitive location under any home directory (the common list) is
/// also refused by the in-process check, so the two layers cannot drift
/// apart on them.
pub proof fn law_home_candidates_are_sensitive(home: Seq<char>, i: int)
    requires
        0 <= i < sensitive_home_entries(false).len(),
    ensures
        is_sensitive_spec(join_path(home, sensitive_home_entries(false)[i])),
{
    reveal_strlit(".ssh");
    reveal_strlit(".aws");
    reveal_strlit(".gnupg");
    reveal_strlit(".netrc");
    reveal_strlit(".config/gh");
    reveal_strlit(".mozilla");
    reveal_strlit(".config/google-chrome");
    reveal_strlit("google-chrome");
    reveal_strlit("/");
    let e = sensitive_home_entries(false)[i];
    lemma_joined_tail(home, e);
    let s = normalize_slashes(join_path(home, e));
    let segs = sensitive_segments();
    if i == 4 {
        assert(segment_hit(s, ".config/gh"@));
    } else if i == 6 {
        let seg = "google-chrome"@;
        assert(e =~= ".config/"@ + seg) by {
            reveal_strlit(".config/");
        }
        let suffix = "/"@ + seg;
        if s == e {
            assert(has_suffix(s, suffix)) by {
                assert(s.skip(s.len() - suffix.len()) =~= suffix);
            }
        } else {
            assert(has_suffix(s, "/"@ + e));
            assert(has_suffix(s, suffix)) by {
                assert(s.skip(s.len() - suffix.len()) =~= (s.skip(s.len() - ("/"@ + e).len())).skip(("/"@ + e).len() - suffix.len()));
                assert(("/"@ + e).skip(("/"@ + e).len() - suffix.len()) =~= suffix);
            }
        }
        assert(segment_hit(s, segs[5]));
    } else {
        let j = if i < 4 { i } else { 4int };
        assert(segs[j] == e);
        assert(segment_hit(s, segs[j]));
    }
}

// ---------------------------------------------------------------------------
// Implementation
// ---------------------------------------------------------------------------
/// Replace every backslash by a forward slash.
pub fn normalize_slashes_exec(s: &[char]) -> (r: Vec<char>)
    ensures
        r@ == normalize_slashes(s@),
{
    let mut r: Vec<char> = Vec::new();
    let n = s.len();
    for i in 0..n
        invariant
            n == s@.len(),
            r@ == normalize_slashes(s@.take(i as int)),
    {
        let c = s[i];
        r.push(if c == '\\' { '/' } else { c });
        assert(normalize_slashes(s@.take(i + 1)) =~= normalize_slashes(s@.take(i as int)).push(
            if s@[i as int] == '\\' { '/' } else { s@[i as int] },
        ));
    }
    assert(s@.take(n as int) =~= s@);
    r
}

/// The text after the last `/`.
pub fn last_segment_exec(s: &[char]) -> (r: Vec<char>)
    ensures
        r@ == last_segment(s@),
{
    let n = s.len();
    let mut k = n;
    // Find the start of the last segment.
    while k > 0 && s[k - 1] != '/'
        invariant
            k <= n == s@.len(),
            forall|j: int| k <= j < n ==> s@[j] != '/',
        decreases k,
    {
        k = k - 1;
    }
    let mut r: Vec<char> = Vec::new();
    let mut i = k;
    proof {
        assert(last_segment(s@.take(k as int)) =~= Seq::<char>::empty());
    }
    while i < n
        invariant
            k <= i <= n == s@.len(),
            forall|j: int| k <= j < n ==> s@[j] != '/',
            r@ == s@.subrange(k as int, i as int),
            last_segment(s@.take(i as int)) == r@,
        decreases n - i,
    {
        r.push(s[i]);
        assert(s@.take(i + 1).drop_last() =~= s@.take(i as int));
        assert(s@.subrange(k as int, i + 1) =~= s@.subrange(k as int, i as int).push(
            s@[i as int],
        ));
        i = i + 1;
    }
    assert(s@.take(n as int) =~= s@);
    r
}

/// Is `last` a dotenv file name?
pub fn is_dotenv_name_exec(last: &[char]) -> (r: bool)
    ensures
        r == is_dotenv_name(last@),
{
    let env = chars_of(".env");
    let env_dot = chars_of(".env.");
    seq_eq(last, &env) || starts_with(last, &env_dot)
}

/// Does `seg` appear in `p` as a whole segment?
pub fn segment_hit_exec(p: &[char], seg: &str) -> (r: bool)
    ensures
        r == segment_hit(p@, seg@),
{
    let segc = chars_of(seg);
    let with_slash = chars_of(concat2(seg, "/").as_str());
    let framed = chars_of(concat3("/", seg, "/").as_str());
    let leading = chars_of(concat2("/", seg).as_str());
    seq_eq(p, &segc) || starts_with(p, &with_slash) || contains(p, &framed) || ends_with(
        p,
        &leading,
    )
}

/// Does the final segment of `path` name a dotenv file?
pub fn dotenv_match(path: &[char]) -> (r: bool)
    ensures
        r == is_dotenv_name(last_segment(path@)),
{
    let last = last_segment_exec(path);
    is_dotenv_name_exec(&last)
}

/// Does `path` contain one of the sensitive segments (or `.config/gh`)?
pub fn sensitive_segment_match(path: &[char]) -> (r: bool)
    ensures
        r == ((exists|i: int|
            0 <= i < sensitive_segments().len() && segment_hit(path@, sensitive_segments()[i]))
            || segment_hit(path@, ".config/gh"@)),
{
    let h0 = segment_hit_exec(path, ".ssh");
    let h1 = segment_hit_exec(path, ".aws");
    let h2 = segment_hit_exec(path, ".gnupg");
    let h3 = segment_hit_exec(path, ".netrc");
    let h4 = segment_hit_exec(path, ".mozilla");
    let h5 = segment_hit_exec(path, "google-chrome");
    let gh = segment_hit_exec(path, ".config/gh");
    let ghost segs = sensitive_segments();
    proof {
        assert(segs[0] == ".ssh"@);
        assert(segs[1] == ".aws"@);
        assert(segs[2] == ".gnupg"@);
        assert(segs[3] == ".netrc"@);
        assert(segs[4] == ".mozilla"@);
        assert(segs[5] == "google-chrome"@);
        if h0 || h1 || h2 || h3 || h4 || h5 {
            if h0 {
                assert(segment_hit(path@, segs[0]));
            } else if h1 {
                assert(segment_hit(path@, segs[1]));
            } else if h2 {
                assert(segment_hit(path@, segs[2]));
            } else if h3 {
                assert(segment_hit(path@, segs[3]));
            } else if h4 {
                assert(segment_hit(path@, segs[4]));
            } else {
                assert(segment_hit(path@, segs[5]));
            }
        } else {
            assert forall|i: int| 0 <= i < segs.len() implies !segment_hit(path@, segs[i]) by {
                if i == 0 {
                } else if i == 1 {
                } else if i == 2 {
                } else if i == 3 {
                } else if i == 4 {
                } else {
                }
            }
        }
    }
    h0 || h1 || h2 || h3 || h4 || h5 || gh
}

/// Does `path` name a resource tool spawns must not read or write?
pub fn is_sensitive_path(path: &str) -> (r: bool)
    ensures
        r == is_sensitive_spec(path@),
{
    let raw = chars_of(path);
    let normalized = normalize_slashes_exec(&raw);
    if dotenv_match(&normalized) {
        return true;
    }
    sensitive_segment_match(&normalized)
}

/// `PathBuf::join` of a relative path onto `base`.
pub fn join_path_exec(base: &str, rel: &str) -> (r: String)
    ensures
        r@ == join_path(base@, rel@),
{
    let b = chars_of(base);
    if b.len() == 0 {
        String::from_str(rel)
    } else if b[b.len() - 1] == '/' {
        concat2(base, rel)
    } else {
        concat3(base, "/", rel)
    }
}

/// The sensitive locations under `home`: `.ssh`, `.aws`, `.gnupg`,
/// `.netrc`, `.config/gh`, `.mozilla`, `.config/google-chrome`, plus the
/// Firefox and Chrome profile directories on macOS. The caller keeps the
/// entries that exist on disk.
pub fn sensitive_path_candidates(home: &str, macos: bool) -> (r: Vec<String>)
    ensures
        r@.len() == sensitive_home_entries(macos).len(),
        forall|i: int|
            0 <= i < r@.len() ==> #[trigger] r@[i]@ == join_path(
                home@,
                sensitive_home_entries(macos)[i],
            ),
{
    let mut out: Vec<String> = Vec::new();
    out.push(join_path_exec(home, ".ssh"));
    out.push(join_path_exec(home, ".aws"));
    out.push(join_path_exec(home, ".gnupg"));
    out.push(join_path_exec(home, ".netrc"));
    out.push(join_path_exec(home, ".config/gh"));
    out.push(join_path_exec(home, ".mozilla"));
    out.push(join_path_exec(home, ".config/google-chrome"));
    if macos {
        out.push(join_path_exec(home, "Library/Application Support/Firefox"));
        out.push(join_path_exec(home, "Library/Application Support/Google/Chrome"));
    }
    out
}

/// `cands` with the entries whose flag in `keep` is false dropped, in
/// order.
pub open spec fn kept(cands: Seq<Seq<char>>, keep: Seq<bool>) -> Seq<Seq<char>>
    decreases cands.len(),
{
    if cands.len() == 0 || keep.len() != cands.len() {
        Seq::empty()
    } else {
        let init = kept(cands.drop_last(), keep.drop_last());
        if keep.last() {
            init.push(cands.last())
        } else {
            init
        }
    }
}

/// The candidate paths under `home`.
pub open spec fn candidate_paths(home: Seq<char>, macos: bool) -> Seq<Seq<char>> {
    sensitive_home_entries(macos).map_values(|e: Seq<char>| join_path(home, e))
}

/// The views of a list of strings.
pub open spec fn string_views(v: Seq<String>) -> Seq<Seq<char>> {
    v.map_values(|s: String| s@)
}

/// `std::path::Path::exists`: whether something is on disk at `path` right
/// now. Nothing is stated of the answer: it depends on the file system.
#[verifier::external_body]
fn path_exists(path: &str) -> bool {
    std::path::Path::new(path).exists()
}

/// The candidates whose answer in `present` is true, in order: the paths
/// that were found on disk.
pub fn existing(cands: &Vec<String>, present: &[bool]) -> (r: Vec<String>)
    requires
        present@.len() == cands@.len(),
    ensures
        string_views(r@) == kept(string_views(cands@), present@),
{
    let ghost all = string_views(cands@);
    let mut out: Vec<String> = Vec::new();
    let n = cands.len();
    for i in 0..n
        invariant
            n == cands@.len(),
            n == present@.len(),
            all == string_views(cands@),
            kept(all.take(i as int), present@.take(i as int)) == string_views(out@),
    {
        let ghost prev = out@;
        if present[i] {
            out.push(cands[i].clone());
        }
        proof {
            assert(all.take(i + 1).drop_last() =~= all.take(i as int));
            assert(present@.take(i + 1).drop_last() =~= present@.take(i as int));
            assert(all.take(i + 1).last() == cands@[i as int]@);
            assert(present@.take(i + 1).last() == present@[i as int]);
            if present@[i as int] {
                assert(string_views(out@) =~= string_views(prev).push(cands@[i as int]@));
            } else {
                assert(out@ == prev);
            }
        }
    }
    proof {
        assert(all.take(n as int) =~= all);
        assert(present@.take(n as int) =~= present@);
    }
    out
}

/// The sensitive locations under the user's `home` that exist on disk, in
/// the order of [`sensitive_path_candidates`]; none without a home
/// directory. Each candidate is asked of the file system once, and
/// [`existing`] keeps exactly those found; which are found is up to the
/// file system.
pub fn sensitive_paths_for_user(home: Option<&str>, macos: bool) -> (r: Vec<String>)
    ensures
        home is None ==> r@.len() == 0,
        home matches Some(h) ==> exists|present: Seq<bool>|
            present.len() == sensitive_home_entries(macos).len() && #[trigger] kept(
                candidate_paths(h@, macos),
                present,
            ) == string_views(r@),
{
    let h = match home {
        Some(h) => h,
        None => {
            return Vec::new();
        },
    };
    let cands = sensitive_path_candidates(h, macos);
    assert(string_views(cands@) =~= candidate_paths(h@, macos));
    let mut present: Vec<bool> = Vec::new();
    let n = cands.len();
    for i in 0..n
        invariant
            n == cands@.len(),
            present@.len() == i,
    {
        present.push(path_exists(cands[i].as_str()));
    }
    let r = existing(&cands, present.as_slice());
    assert(kept(candidate_paths(h@, macos), present@) == string_views(r@));
    r
}

} // verus!
