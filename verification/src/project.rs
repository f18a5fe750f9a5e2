//! Project-level context.
//!
//! The project file (`SAVVAGENT.md`) carries optional YAML front-matter
//! delimited by `---` lines. The body (what follows the closing delimiter,
//! or the whole file when there is no front-matter) goes into the system
//! prompt; the front-matter feeds the permission policy its project rules.
use vstd::prelude::*;

use crate::permissions::FrontMatterPermissions;
use crate::text::{contains_seq, trim_string, trim_ws, chars_of, concat2, concat3, ends_with, find_from, has_prefix, has_suffix,
    is_blank, is_blank_exec, is_white_space, occurs_at, starts_with, string_from_range,
    trim_end_ws, trim_start_ws, TextLike};

verus! {

/// The file the host reads at the project root for project instructions.
pub const PROJECT_CONTEXT_FILE: &'static str = "SAVVAGENT.md";

/// A parsed project file: the trimmed body (if any) and the permissions
/// section of its front-matter (empty when absent or malformed).
#[derive(Debug, Default, Clone)]
pub struct ParsedProjectContext {
    /// Body text, trimmed of leading and trailing whitespace.
    pub body: Option<String>,
    /// Permissions from the front-matter, or empty defaults.
    pub permissions: FrontMatterPermissions,
}

/// A project file split into its front-matter text and its trimmed body.
#[derive(Debug, Clone, PartialEq, Eq)]
pub struct ProjectText {
    /// The YAML between the delimiters, when the file has front-matter.
    pub front_matter: Option<String>,
    /// The trimmed body; `None` when it is empty or all whitespace.
    pub body: Option<String>,
}

// ---------------------------------------------------------------------------
// Specification
// ---------------------------------------------------------------------------
/// `i` is the first index where `p` occurs in `s`.
pub open spec fn is_first_occurrence(s: Seq<char>, p: Seq<char>, i: int) -> bool {
    occurs_at(s, p, i) && forall|j: int| 0 <= j < i ==> !occurs_at(s, p, j)
}

/// The first index where `p` occurs in `s` (`str::find`).
pub open spec fn first_occurrence(s: Seq<char>, p: Seq<char>) -> Option<int> {
    if exists|i: int| is_first_occurrence(s, p, i) {
        Some(choose|i: int| is_first_occurrence(s, p, i))
    } else {
        None
    }
}

/// Where the front-matter's closing delimiter starts in `rest` (the text
/// after the opening `---\n`): the first `\n---\n`, else a final `\n---`.
pub open spec fn close_index(rest: Seq<char>) -> Option<int> {
    match first_occurrence(rest, "\n---\n"@) {
        Some(i) => Some(i),
        None => if has_suffix(rest, "\n---"@) {
            Some(rest.len() - 4)
        } else {
            None
        },
    }
}

/// Split `^---\n<yaml>\n---(\n|$)<body>` into `(yaml, body)`.
pub open spec fn split_front_matter_spec(t: Seq<char>) -> Option<(Seq<char>, Seq<char>)> {
    if !has_prefix(t, "---\n"@) {
        None
    } else {
        let rest = t.skip(4);
        match close_index(rest) {
            None => None,
            Some(c) => {
                let after = rest.skip(c + 4);
                let body = if after.len() > 0 && after[0] == '\n' {
                    after.skip(1)
                } else {
                    after
                };
                Some((rest.take(c), body))
            },
        }
    }
}

/// The body as stored: `None` when blank, else trimmed.
pub open spec fn body_of(s: Seq<char>) -> Option<Seq<char>> {
    if is_blank(s) {
        None
    } else {
        Some(trim_ws(s))
    }
}

/// The heading of the project-body layer.
pub open spec fn body_heading() -> Seq<char> {
    "Project context (from SAVVAGENT.md)"@
}

/// The system prompt from an override and the project body.
pub open spec fn system_prompt_spec(o: Option<Seq<char>>, b: Option<Seq<char>>) -> Option<Seq<char>> {
    match (o, b) {
        (Some(p), Some(c)) => Some(p + "\n\n# "@ + body_heading() + "\n\n"@ + c),
        (Some(p), None) => Some(p),
        (None, Some(c)) => Some("# "@ + body_heading() + "\n\n"@ + c),
        (None, None) => None,
    }
}

/// The section a layer contributes: nothing when absent or blank, else
/// its text under an H1 heading.
pub open spec fn layer_section(heading: Seq<char>, layer: Option<Seq<char>>) -> Seq<Seq<char>> {
    match layer {
        Some(t) => if is_blank(t) {
            Seq::empty()
        } else {
            seq!["# "@ + heading + "\n\n"@ + t]
        },
        None => Seq::empty(),
    }
}

/// Sections joined by a blank line.
pub open spec fn join_sections(secs: Seq<Seq<char>>) -> Seq<char>
    decreases secs.len(),
{
    if secs.len() == 0 {
        Seq::empty()
    } else if secs.len() == 1 {
        secs[0]
    } else {
        join_sections(secs.drop_last()) + "\n\n"@ + secs.last()
    }
}

/// The layered prompt: default, then override, then body.
pub open spec fn layered_spec(
    d: Option<Seq<char>>,
    o: Option<Seq<char>>,
    b: Option<Seq<char>>,
) -> Option<Seq<char>> {
    let secs = layer_section("Savvagent default prompt"@, d) + layer_section("Host override"@, o)
        + layer_section(body_heading(), b);
    if secs.len() == 0 {
        None
    } else {
        Some(join_sections(secs))
    }
}

/// The model of an optional string.
pub open spec fn opt_model(o: Option<&str>) -> Option<Seq<char>> {
    match o {
        Some(s) => Some(s@),
        None => None,
    }
}

/// The model of an optional owned string.
pub open spec fn opt_string_model(o: Option<String>) -> Option<Seq<char>> {
    match o {
        Some(s) => Some(s@),
        None => None,
    }
}

// ---------------------------------------------------------------------------
// Laws
// ---------------------------------------------------------------------------
/// An empty or whitespace-only layer is the same as an absent one.
pub proof fn law_blank_layer_is_absent(
    d: Option<Seq<char>>,
    o: Option<Seq<char>>,
    b: Option<Seq<char>>,
    blank: Seq<char>,
)
    requires
        is_blank(blank),
    ensures
        layered_spec(Some(blank), o, b) == layered_spec(None, o, b),
        layered_spec(d, Some(blank), b) == layered_spec(d, None, b),
        layered_spec(d, o, Some(blank)) == layered_spec(d, o, None),
{
    assert(layer_section("Savvagent default prompt"@, Some(blank)) =~= Seq::<Seq<char>>::empty());
    assert(layer_section("Host override"@, Some(blank)) =~= Seq::<Seq<char>>::empty());
    assert(layer_section(body_heading(), Some(blank)) =~= Seq::<Seq<char>>::empty());
}

/// The layered prompt is absent only when every layer is absent or blank.
pub proof fn law_layered_none_iff_all_blank(
    d: Option<Seq<char>>,
    o: Option<Seq<char>>,
    b: Option<Seq<char>>,
)
    ensures
        (layered_spec(d, o, b) is None) <==> ((d is None || is_blank(d->0)) && (o is None
            || is_blank(o->0)) && (b is None || is_blank(b->0))),
{
}

/// Any occurrence of `p` has a first one at or before it.
proof fn lemma_some_first_occurrence(s: Seq<char>, p: Seq<char>, j: int)
    requires
        occurs_at(s, p, j),
    ensures
        exists|i: int| 0 <= i <= j && occurs_at(s, p, i) && forall|k: int| 0 <= k < i ==> !occurs_at(s, p, k),
    decreases j,
{
    if exists|k: int| 0 <= k < j && occurs_at(s, p, k) {
        let k = choose|k: int| 0 <= k < j && occurs_at(s, p, k);
        lemma_some_first_occurrence(s, p, k);
    } else {
        assert(forall|k: int| 0 <= k < j ==> !occurs_at(s, p, k));
    }
}

/// A `\n---\n` inside `rest.take(c)` followed by a newline lies in `rest`,
/// before `c`, when `rest[c]` is that newline.
proof fn lemma_delimiter_in_front(rest: Seq<char>, c: int, j: int)
    requires
        0 <= c < rest.len(),
        rest[c] == '\n',
        occurs_at(rest.take(c) + "\n"@, "\n---\n"@, j),
    ensures
        occurs_at(rest, "\n---\n"@, j),
        j < c,
{
    reveal_strlit("\n---\n");
    reveal_strlit("\n");
    let y = rest.take(c) + "\n"@;
    let p = "\n---\n"@;
    assert(y.len() == c + 1);
    assert forall|k: int| 0 <= k < 5 implies rest[j + k] == p[k] by {
        assert(y.subrange(j, j + 5)[k] == y[j + k]);
        if j + k < c {
            assert(y[j + k] == rest[j + k]);
        } else {
            assert(j + k == c);
        }
    }
    assert(rest.subrange(j, j + 5) =~= p);
    if j >= c {
        assert(y.subrange(j, j + 5)[1] == y[j + 1]);
        assert(false);
    }
}

/// The front matter ends at the first closing delimiter: the YAML never
/// holds a `---` line, so a markdown `---` rule in the body stays in the
/// body.
pub proof fn law_front_matter_ends_at_the_first_delimiter(t: Seq<char>)
    ensures
        split_front_matter_spec(t) matches Some((y, b)) ==> !contains_seq(y + "\n"@, "\n---\n"@),
{
    reveal_strlit("\n---\n");
    reveal_strlit("\n---");
    let p = "\n---\n"@;
    if has_prefix(t, "---\n"@) {
        let rest = t.skip(4);
        match first_occurrence(rest, p) {
            Some(i) => {
                assert(is_first_occurrence(rest, p, i));
                assert(rest.subrange(i, i + 5)[0] == rest[i]);
                if contains_seq(rest.take(i) + "\n"@, p) {
                    let j = choose|j: int| occurs_at(rest.take(i) + "\n"@, p, j);
                    lemma_delimiter_in_front(rest, i, j);
                    assert(!occurs_at(rest, p, j));
                }
            },
            None => {
                if has_suffix(rest, "\n---"@) {
                    let c = rest.len() - 4;
                    assert(rest.skip(c)[0] == rest[c]);
                    if contains_seq(rest.take(c) + "\n"@, p) {
                        let j = choose|j: int| occurs_at(rest.take(c) + "\n"@, p, j);
                        lemma_delimiter_in_front(rest, c, j);
                        lemma_some_first_occurrence(rest, p, j);
                        let i = choose|i: int|
                            0 <= i <= j && occurs_at(rest, p, i) && forall|k: int| 0 <= k < i ==> !occurs_at(rest, p, k);
                        assert(is_first_occurrence(rest, p, i));
                        assert(false);
                    }
                }
            },
        }
    }
}

// ---------------------------------------------------------------------------
// Implementation
// ---------------------------------------------------------------------------
proof fn lemma_first_occurrence_found(s: Seq<char>, p: Seq<char>, i: int)
    requires
        is_first_occurrence(s, p, i),
    ensures
        first_occurrence(s, p) == Some(i),
{
    let k = choose|k: int| is_first_occurrence(s, p, k);
    assert(is_first_occurrence(s, p, k));
    if k < i {
        assert(!occurs_at(s, p, k));
    } else if k > i {
        assert(!occurs_at(s, p, i));
    }
}

/// Split a project file into its front-matter and body (see
/// [`split_front_matter_spec`]).
pub fn split_front_matter(text: &str) -> (r: Option<(String, String)>)
    ensures
        match split_front_matter_spec(text@) {
            Some((y, b)) => r matches Some((ry, rb)) && ry@ == y && rb@ == b,
            None => r is None,
        },
{
    let t = chars_of(text);
    let open = chars_of("---\n");
    if !starts_with(&t, &open) {
        return None;
    }
    proof {
        reveal_strlit("---\n");
    }
    let ghost rest = t@.skip(4);
    let n = t.len();
    let close_pat = chars_of("\n---\n");
    proof {
        reveal_strlit("\n---\n");
        reveal_strlit("\n---");
    }
    // Indices below are into `t`; `rest` starts at index 4.
    let close: usize = match find_from(&t, &close_pat, 4) {
        Some(i) => {
            proof {
                assert forall|j: int| 0 <= j < i - 4 implies !occurs_at(rest, "\n---\n"@, j) by {
                    if occurs_at(rest, "\n---\n"@, j) {
                        assert(t@.subrange(j + 4, j + 4 + 5) =~= rest.subrange(j, j + 5));
                        assert(occurs_at(t@, close_pat@, j + 4));
                    }
                }
                assert(t@.subrange(i as int, i + 5) =~= rest.subrange(i - 4, i - 4 + 5));
                assert(is_first_occurrence(rest, "\n---\n"@, i - 4));
                lemma_first_occurrence_found(rest, "\n---\n"@, i - 4);
            }
            i
        },
        None => {
            proof {
                assert forall|j: int| !is_first_occurrence(rest, "\n---\n"@, j) by {
                    if is_first_occurrence(rest, "\n---\n"@, j) {
                        assert(t@.subrange(j + 4, j + 4 + 5) =~= rest.subrange(j, j + 5));
                        assert(occurs_at(t@, close_pat@, j + 4));
                    }
                }
            }
            let tail = chars_of("\n---");
            if n >= 8 && ends_with(&t, &tail) {
                proof {
                    assert(rest.skip(rest.len() - 4) =~= t@.skip(n - 4));
                }
                n - 4
            } else {
                proof {
                    if has_suffix(rest, "\n---"@) {
                        assert(rest.skip(rest.len() - 4) =~= t@.skip(n - 4));
                        assert(false);
                    }
                }
                return None;
            }
        },
    };
    let yaml = string_from_range(&t, 4, close);
    assert(t@.subrange(4, close as int) =~= rest.take(close - 4));
    let after_start = close + 4;
    let body_start = if after_start < n && t[after_start] == '\n' {
        after_start + 1
    } else {
        after_start
    };
    let body = string_from_range(&t, body_start, n);
    proof {
        let after = rest.skip(close - 4 + 4);
        assert(after =~= t@.skip(after_start as int));
        if after.len() > 0 && after[0] == '\n' {
            assert(after.skip(1) =~= t@.subrange(body_start as int, n as int));
        } else {
            assert(after =~= t@.subrange(body_start as int, n as int));
        }
    }
    Some((yaml, body))
}

/// The body as stored: `None` when blank, else trimmed.
fn body_text(s: &str) -> (r: Option<String>)
    ensures
        opt_string_model(r) == body_of(s@),
{
    let c = chars_of(s);
    if is_blank_exec(&c) {
        None
    } else {
        Some(trim_string(&c))
    }
}

/// Split a project file into front-matter text and trimmed body. With no
/// front-matter, the whole file is the body.
pub fn split_project_text(text: &str) -> (r: ProjectText)
    ensures
        match split_front_matter_spec(text@) {
            Some((y, b)) => (r.front_matter matches Some(f) && f@ == y) && opt_string_model(r.body)
                == body_of(b),
            None => r.front_matter is None && opt_string_model(r.body) == body_of(text@),
        },
{
    match split_front_matter(text) {
        Some((yaml, body)) => {
            let b = body_text(body.as_str());
            ProjectText { front_matter: Some(yaml), body: b }
        },
        None => ProjectText { front_matter: None, body: body_text(text) },
    }
}

/// Combine a project body with the front-matter permissions parsed from it.
pub fn parsed_context(text: ProjectText, permissions: FrontMatterPermissions) -> (r:
    ParsedProjectContext)
    ensures
        opt_string_model(r.body) == opt_string_model(text.body),
        r.permissions == permissions,
{
    ParsedProjectContext { body: text.body, permissions }
}

/// Build the system prompt from an optional override and the project
/// body: the override, then the body under a `# Project context` heading.
pub fn system_prompt(override_prompt: Option<&str>, project_body: Option<&str>) -> (r: Option<String>)
    ensures
        opt_string_model(r) == system_prompt_spec(opt_model(override_prompt), opt_model(project_body)),
{
    match (override_prompt, project_body) {
        (Some(p), Some(c)) => {
            let head = concat3(p, "\n\n# ", "Project context (from SAVVAGENT.md)");
            Some(concat3(head.as_str(), "\n\n", c))
        },
        (Some(p), None) => Some(String::from_str(p)),
        (None, Some(c)) => {
            let head = concat3("# ", "Project context (from SAVVAGENT.md)", "\n\n");
            Some(concat2(head.as_str(), c))
        },
        (None, None) => None,
    }
}

/// Append one layer's section to the joined output.
fn push_layer(out: &mut String, count: &mut usize, heading: &str, layer: Option<&str>)
    requires
        *old(count) < 3,
    ensures
        ({
            let sec = layer_section(heading@, opt_model(layer));
            &&& *final(count) == *old(count) + sec.len()
            &&& forall|prev: Seq<Seq<char>>|
                prev.len() == *old(count) && join_sections(prev) == old(out)@ ==> join_sections(
                    prev + sec,
                ) == final(out)@
        }),
{
    if let Some(text) = layer {
        let c = chars_of(text);
        if !is_blank_exec(&c) {
            let section = concat3("# ", heading, "\n\n");
            let section = concat2(section.as_str(), text);
            let ghost old_out = out@;
            if *count > 0 {
                out.append("\n\n");
            }
            out.append(section.as_str());
            *count = *count + 1;
            proof {
                assert forall|prev: Seq<Seq<char>>|
                    prev.len() == *old(count) && join_sections(prev) == old_out implies join_sections(
                    prev + seq![section@],
                ) == out@ by {
                    let all = prev + seq![section@];
                    assert(all.drop_last() =~= prev);
                    assert(all.last() == section@);
                    if prev.len() == 0 {
                        assert(all =~= seq![section@]);
                    }
                }
            }
            return ;
        }
    }
    assert forall|prev: Seq<Seq<char>>|
        prev.len() == *old(count) && join_sections(prev) == old(out)@ implies join_sections(
        prev + layer_section(heading@, opt_model(layer)),
    ) == out@ by {
        assert(prev + layer_section(heading@, opt_model(layer)) =~= prev);
    }
}

/// Stitch the default prompt, the embedder override and the project body
/// into one system prompt. Each layer that is present and not blank is
/// rendered verbatim under an H1 heading; sections are separated by a
/// blank line. `None` when every layer is absent or blank.
pub fn layered_prompt(
    default: Option<&str>,
    override_prompt: Option<&str>,
    project_body: Option<&str>,
) -> (r: Option<String>)
    ensures
        opt_string_model(r) == layered_spec(
            opt_model(default),
            opt_model(override_prompt),
            opt_model(project_body),
        ),
{
    let mut out = String::new();
    let mut count: usize = 0;
    let ghost s1 = layer_section("Savvagent default prompt"@, opt_model(default));
    let ghost s2 = layer_section("Host override"@, opt_model(override_prompt));
    let ghost s3 = layer_section(body_heading(), opt_model(project_body));
    assert(join_sections(Seq::<Seq<char>>::empty()) == out@);
    push_layer(&mut out, &mut count, "Savvagent default prompt", default);
    assert(Seq::<Seq<char>>::empty() + s1 =~= s1);
    push_layer(&mut out, &mut count, "Host override", override_prompt);
    push_layer(&mut out, &mut count, "Project context (from SAVVAGENT.md)", project_body);
    assert(s1 + s2 + s3 == (s1 + s2) + s3);
    if count == 0 {
        None
    } else {
        Some(out)
    }
}

} // verus!
