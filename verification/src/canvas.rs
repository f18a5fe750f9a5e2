//! Inline HTML canvas: the canvas record and the link interceptor's URL
//! routing table.
use vstd::prelude::*;

use crate::plugin::{Effect, UrlTarget};
use crate::text::{ascii_lower, ascii_lower_seq, ascii_lowercase, chars_of, contains, contains_seq,
    has_prefix, occurs_at, starts_with};

verus! {

/// Identifier of a content block inside a conversation.
#[derive(Debug, Clone, Copy, PartialEq, Eq, Hash)]
pub struct ContentBlockId(pub u64);

/// Static HTML canvas: an id and the HTML source it renders.
#[derive(Debug)]
pub struct HtmlCanvas {
    id: ContentBlockId,
    source: String,
}

impl HtmlCanvas {
    /// The canvas id.
    pub closed spec fn spec_id(&self) -> ContentBlockId {
        self.id
    }

    /// The canvas's HTML source.
    pub closed spec fn spec_source(&self) -> Seq<char> {
        self.source@
    }

    /// Construct a canvas from HTML source.
    pub fn new(id: ContentBlockId, source: &str) -> (c: Self)
        ensures
            c.spec_id() == id,
            c.spec_source() == source@,
    {
        HtmlCanvas { id, source: String::from_str(source) }
    }

    /// The HTML source this canvas was constructed from.
    pub fn source(&self) -> (s: &str)
        ensures
            s@ == self.spec_source(),
    {
        self.source.as_str()
    }

    /// The canvas id.
    pub fn id(&self) -> (i: ContentBlockId)
        ensures
            i == self.spec_id(),
    {
        self.id
    }
}

/// Schemes handed to the system browser / handler.
pub open spec fn is_system_scheme(lower: Seq<char>) -> bool {
    ||| has_prefix(lower, "http://"@)
    ||| has_prefix(lower, "https://"@)
    ||| has_prefix(lower, "mailto:"@)
    ||| has_prefix(lower, "tel:"@)
    ||| has_prefix(lower, "sms:"@)
}

/// Schemes deliberately dropped: `data:`, `javascript:`, `file://`, and
/// any other `scheme://` URL.
pub open spec fn is_dropped_url(href: Seq<char>, lower: Seq<char>) -> bool {
    ||| has_prefix(lower, "data:"@)
    ||| has_prefix(lower, "javascript:"@)
    ||| has_prefix(lower, "file://"@)
    ||| contains_seq(href, "://"@)
}

/// The URL-scheme routing table (scheme matching is ASCII-case-insensitive).
pub open spec fn classify_url_spec(href: Seq<char>) -> Option<UrlTarget> {
    let lower = ascii_lower_seq(href);
    if is_system_scheme(lower) {
        Some(UrlTarget::SystemBrowser)
    } else if is_dropped_url(href, lower) {
        None
    } else {
        Some(UrlTarget::ContinueConversation)
    }
}

/// Lower-casing a character twice is lower-casing it once, and only `:`
/// and `/` lower-case to themselves among those two.
proof fn lemma_lower_char(c: char)
    ensures
        ascii_lower(ascii_lower(c)) == ascii_lower(c),
        (ascii_lower(c) == ':') == (c == ':'),
        (ascii_lower(c) == '/') == (c == '/'),
{
    if 'A' <= c <= 'Z' {
        assert(65 <= (c as u32) <= 90);
        assert(97 <= ((c as u32) + 32) <= 122);
        assert((((c as u32) + 32) as char) as u32 == (c as u32) + 32);
    }
}

/// Lower-casing is idempotent.
proof fn lemma_lower_idempotent(s: Seq<char>)
    ensures
        ascii_lower_seq(ascii_lower_seq(s)) == ascii_lower_seq(s),
{
    assert forall|i: int| 0 <= i < s.len() implies #[trigger] ascii_lower_seq(ascii_lower_seq(s))[i]
        == ascii_lower_seq(s)[i] by {
        lemma_lower_char(s[i]);
    }
    assert(ascii_lower_seq(ascii_lower_seq(s)) =~= ascii_lower_seq(s));
}

/// Lower-casing neither creates nor removes a `://`.
proof fn lemma_lower_keeps_separator(s: Seq<char>)
    ensures
        contains_seq(ascii_lower_seq(s), "://"@) == contains_seq(s, "://"@),
{
    reveal_strlit("://");
    let p = "://"@;
    let l = ascii_lower_seq(s);
    assert forall|i: int| occurs_at(s, p, i) == occurs_at(l, p, i) by {
        if 0 <= i && i + 3 <= s.len() {
            lemma_lower_char(s[i]);
            lemma_lower_char(s[i + 1]);
            lemma_lower_char(s[i + 2]);
            if occurs_at(s, p, i) {
                assert(s.subrange(i, i + 3)[0] == s[i]);
                assert(s.subrange(i, i + 3)[1] == s[i + 1]);
                assert(s.subrange(i, i + 3)[2] == s[i + 2]);
                assert(l.subrange(i, i + 3) =~= p);
            }
            if occurs_at(l, p, i) {
                assert(l.subrange(i, i + 3)[0] == l[i]);
                assert(l.subrange(i, i + 3)[1] == l[i + 1]);
                assert(l.subrange(i, i + 3)[2] == l[i + 2]);
                assert(s.subrange(i, i + 3) =~= p);
            }
        }
    }
    if contains_seq(s, p) {
        let i = choose|i: int| occurs_at(s, p, i);
        assert(occurs_at(l, p, i));
    }
    if contains_seq(l, p) {
        let i = choose|i: int| occurs_at(l, p, i);
        assert(occurs_at(s, p, i));
    }
}

/// URL routing ignores ASCII case: an href is routed as its lower-cased
/// form is.
pub proof fn law_url_routing_ignores_ascii_case(href: Seq<char>)
    ensures
        classify_url_spec(href) == classify_url_spec(ascii_lower_seq(href)),
{
    lemma_lower_idempotent(href);
    lemma_lower_keeps_separator(href);
}

/// A link continues the conversation exactly when its lower-cased form
/// starts with none of `http://`, `https://`, `mailto:`, `tel:`, `sms:`,
/// `data:`, `javascript:`, `file://`, and it holds no `://`.
pub proof fn law_relative_links_continue_the_conversation(href: Seq<char>)
    ensures
        ({
            let lower = ascii_lower_seq(href);
            (classify_url_spec(href) == Some(UrlTarget::ContinueConversation)) <==> (!has_prefix(lower, "http://"@)
                && !has_prefix(lower, "https://"@) && !has_prefix(lower, "mailto:"@) && !has_prefix(lower, "tel:"@)
                && !has_prefix(lower, "sms:"@) && !has_prefix(lower, "data:"@) && !has_prefix(
                lower,
                "javascript:"@,
            ) && !has_prefix(lower, "file://"@) && !contains_seq(href, "://"@))
        }),
{
}

/// Does `lower` start with the literal `p`?
fn has_prefix_lit(lower: &[char], p: &str) -> (r: bool)
    ensures
        r == has_prefix(lower@, p@),
{
    let pc = chars_of(p);
    starts_with(lower, &pc)
}

/// Classify an href: `Some(SystemBrowser)` for http(s)/mailto/tel/sms,
/// `None` for schemes that are dropped, `Some(ContinueConversation)` for
/// anything without a scheme (a relative path).
pub fn classify_url(href: &str) -> (r: Option<UrlTarget>)
    ensures
        r == classify_url_spec(href@),
{
    let h = chars_of(href);
    let lower = ascii_lowercase(&h);
    if has_prefix_lit(&lower, "http://") || has_prefix_lit(&lower, "https://") || has_prefix_lit(
        &lower,
        "mailto:",
    ) || has_prefix_lit(&lower, "tel:") || has_prefix_lit(&lower, "sms:") {
        Some(UrlTarget::SystemBrowser)
    } else if has_prefix_lit(&lower, "data:") || has_prefix_lit(&lower, "javascript:")
        || has_prefix_lit(&lower, "file://") {
        None
    } else {
        let sep = chars_of("://");
        if contains(&h, &sep) {
            None
        } else {
            Some(UrlTarget::ContinueConversation)
        }
    }
}

/// The effect an anchor with this `href` produces when activated: an
/// `OpenUrl` routed by [`classify_url`], or nothing for dropped schemes.
pub fn link_effect(href: &str) -> (r: Option<Effect>)
    ensures
        match classify_url_spec(href@) {
            Some(t) => r matches Some(Effect::OpenUrl { url, target }) && url@ == href@ && target
                == t,
            None => r is None,
        },
{
    match classify_url(href) {
        Some(target) => Some(Effect::OpenUrl { url: String::from_str(href), target }),
        None => None,
    }
}

/// Result of an interception pass that may mutate the document.
#[derive(Debug)]
pub struct InterceptOutcome {
    /// Effect to surface to the host, or `None` for internal-only changes.
    pub effect: Option<Effect>,
    /// True if the document was mutated and must be re-resolved.
    pub dirty: bool,
}

/// What was clicked, as the interceptor reads it from the document.
#[derive(Debug, Clone, PartialEq, Eq)]
pub enum ClickTarget {
    /// No node, or no element at the target.
    Missing,
    /// An `<a>` element and its `href`, if any.
    Anchor {
        /// The `href` attribute.
        href: Option<String>,
    },
    /// A `<summary>` element. `details_open` is `Some(open)` when its parent
    /// is a `<details>` element (with `open` telling whether the `open`
    /// attribute is present), `None` otherwise.
    Summary {
        /// The parent `<details>`'s `open` state.
        details_open: Option<bool>,
    },
    /// Any other element.
    Other,
}

/// The document change an interception asks for.
#[derive(Debug, Clone, Copy, PartialEq, Eq, Structural)]
pub enum DomChange {
    /// Leave the document alone.
    Keep,
    /// Set the parent `<details>`'s `open` attribute (empty value).
    OpenDetails,
    /// Clear the parent `<details>`'s `open` attribute.
    CloseDetails,
}

/// Decide the default action of a click: an anchor follows its link; a
/// summary toggles its parent `<details>` (and marks the document dirty);
/// anything else does nothing.
pub fn intercept_click(target: &ClickTarget) -> (r: (InterceptOutcome, DomChange))
    ensures
        match target {
            ClickTarget::Anchor { href: Some(h) } => !r.0.dirty && r.1 == DomChange::Keep && match classify_url_spec(h@) {
                Some(t) => r.0.effect matches Some(Effect::OpenUrl { url, target: tt }) && url@ == h@ && tt == t,
                None => r.0.effect is None,
            },
            ClickTarget::Summary { details_open: Some(open) } => r.0.effect is None && r.0.dirty && r.1 == summary_change(*open),
            _ => r.0.effect is None && !r.0.dirty && r.1 == DomChange::Keep,
        },
{
    match target {
        ClickTarget::Anchor { href: Some(h) } => (InterceptOutcome { effect: link_effect(h.as_str()), dirty: false }, DomChange::Keep),
        ClickTarget::Summary { details_open: Some(open) } => {
            let change = if *open {
                DomChange::CloseDetails
            } else {
                DomChange::OpenDetails
            };
            (InterceptOutcome { effect: None, dirty: true }, change)
        },
        _ => (InterceptOutcome { effect: None, dirty: false }, DomChange::Keep),
    }
}

/// The change a summary click asks of a `<details>` whose `open` attribute
/// is present (`open`) or absent.
pub open spec fn summary_change(open: bool) -> DomChange {
    if open {
        DomChange::CloseDetails
    } else {
        DomChange::OpenDetails
    }
}

/// Whether the `open` attribute is present after applying `c`.
pub open spec fn open_after(open: bool, c: DomChange) -> bool {
    match c {
        DomChange::Keep => open,
        DomChange::OpenDetails => true,
        DomChange::CloseDetails => false,
    }
}

/// A summary click flips its `<details>`, and a second click undoes the
/// first.
pub proof fn law_summary_click_toggles(open: bool)
    ensures
        open_after(open, summary_change(open)) == !open,
        open_after(open_after(open, summary_change(open)), summary_change(open_after(open, summary_change(open)))) == open,
{
}

} // verus!
