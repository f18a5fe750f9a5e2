//! Streaming parser that extracts `html-canvas` fences from model text
//! output and emits a sequence of [`FenceChunk::Text`] and
//! [`FenceChunk::Html`] chunks.
//!
//! Fence syntax: a line whose content (ignoring leading whitespace and the
//! line terminator) is ```` ```html-canvas ```` opens an HTML block; a line
//! whose content is ```` ``` ```` closes it. Anything in between becomes
//! `Html`; everything else is `Text`. The parser is push-based: feed text
//! fragments with [`FenceParser::push`], then call [`FenceParser::finish`].
use vstd::prelude::*;

use crate::text::{chars_of, is_whitespace, occurs_at, occurs_at_exec, string_from,
    trim_start_ws, is_white_space};

verus! {

/// One unit of parsed output from [`FenceParser::push`] / `finish`.
#[derive(Debug, Clone, PartialEq, Eq)]
pub enum FenceChunk {
    /// Plain text outside any html-canvas fence.
    Text(String),
    /// HTML content from inside a `html-canvas` fence (fence lines stripped).
    Html(String),
}

/// Outcome of [`FenceParser::finish`].
#[derive(Debug, Clone, PartialEq, Eq)]
pub struct FinishResult {
    /// Flushed chunks (any buffered text or unclosed-fence content).
    pub chunks: Vec<FenceChunk>,
    /// `true` if a fence was opened but never closed before the end of the
    /// stream; the open content was flushed as `Html` regardless.
    pub unclosed_fence: bool,
}

/// Push-based fence parser.
#[derive(Debug)]
pub struct FenceParser {
    /// Carry-over characters that do not yet form a complete line.
    buf: Vec<char>,
    /// True iff we are currently inside an open html-canvas fence.
    inside_canvas: bool,
}

// ---------------------------------------------------------------------------
// Model
// ---------------------------------------------------------------------------
/// A chunk as a pair: `true` for HTML, `false` for text, and its characters.
pub type ChunkModel = (bool, Seq<char>);

/// Scanner state: inside a fence, chunks emitted so far, pending line.
pub type ScanState = (bool, Seq<ChunkModel>, Seq<char>);

/// The model of one chunk.
pub open spec fn chunk_model(c: FenceChunk) -> ChunkModel {
    match c {
        FenceChunk::Text(s) => (false, s@),
        FenceChunk::Html(s) => (true, s@),
    }
}

/// The model of a chunk list.
pub open spec fn chunks_model(v: Seq<FenceChunk>) -> Seq<ChunkModel> {
    v.map_values(|c: FenceChunk| chunk_model(c))
}

/// The line content that opens a canvas fence.
pub open spec fn open_marker() -> Seq<char> {
    "```html-canvas"@
}

/// The line content that closes a fence.
pub open spec fn close_marker() -> Seq<char> {
    "```"@
}

/// `s` without its trailing `\n` / `\r` characters.
pub open spec fn trim_end_newlines(s: Seq<char>) -> Seq<char>
    decreases s.len(),
{
    if s.len() > 0 && (s.last() == '\n' || s.last() == '\r') {
        trim_end_newlines(s.drop_last())
    } else {
        s
    }
}

/// What one complete line does: the new `inside` flag and the chunk (if
/// any) that the line contributes.
pub open spec fn line_step(inside: bool, line: Seq<char>) -> (bool, Option<ChunkModel>) {
    let t = trim_start_ws(trim_end_newlines(line));
    if !inside {
        if t == open_marker() {
            (true, None)
        } else {
            (false, Some((false, line)))
        }
    } else {
        if t == close_marker() {
            (false, None)
        } else {
            (true, Some((true, line)))
        }
    }
}

/// Append a chunk, merging it into the last one when their kinds agree.
pub open spec fn emit(out: Seq<ChunkModel>, c: Option<ChunkModel>) -> Seq<ChunkModel> {
    match c {
        None => out,
        Some(ch) => if out.len() > 0 && out.last().0 == ch.0 {
            out.update(out.len() - 1, (ch.0, out.last().1 + ch.1))
        } else {
            out.push(ch)
        },
    }
}

/// Feed one character to the scanner.
pub open spec fn feed(st: ScanState, c: char) -> ScanState {
    if c == '\n' {
        let step = line_step(st.0, st.2.push(c));
        (step.0, emit(st.1, step.1), Seq::empty())
    } else {
        (st.0, st.1, st.2.push(c))
    }
}

/// Feed a whole string to the scanner, one character at a time.
pub open spec fn feed_all(st: ScanState, s: Seq<char>) -> ScanState
    decreases s.len(),
{
    if s.len() == 0 {
        st
    } else {
        feed(feed_all(st, s.drop_last()), s.last())
    }
}

/// What [`FenceParser::push`] computes from state `(inside, buf)`.
pub open spec fn push_spec(inside: bool, buf: Seq<char>, fragment: Seq<char>) -> ScanState {
    feed_all((inside, Seq::empty(), buf), fragment)
}

/// The chunks [`FenceParser::finish`] flushes from state `(inside, buf)`.
pub open spec fn finish_spec(inside: bool, buf: Seq<char>) -> Seq<ChunkModel> {
    if buf.len() == 0 {
        Seq::empty()
    } else {
        emit(Seq::empty(), line_step(inside, buf).1)
    }
}

/// The chunk stream as a flat sequence of (is-html, character) pairs.
pub open spec fn flatten(out: Seq<ChunkModel>) -> Seq<(bool, char)>
    decreases out.len(),
{
    if out.len() == 0 {
        Seq::empty()
    } else {
        flatten(out.drop_last()) + out.last().1.map_values(|c: char| (out.last().0, c))
    }
}

impl FenceParser {
    /// The parser state: inside a fence, and the pending partial line.
    pub closed spec fn model(&self) -> (bool, Seq<char>) {
        (self.inside_canvas, self.buf@)
    }

    /// The pending partial line never holds a newline.
    pub closed spec fn wf(&self) -> bool {
        forall|i: int| 0 <= i < self.buf@.len() ==> self.buf@[i] != '\n'
    }
}

// ---------------------------------------------------------------------------
// Lemmas
// ---------------------------------------------------------------------------
proof fn lemma_feed_no_newline(st: ScanState, s: Seq<char>)
    requires
        forall|i: int| 0 <= i < st.2.len() ==> st.2[i] != '\n',
    ensures
        forall|i: int| 0 <= i < feed_all(st, s).2.len() ==> feed_all(st, s).2[i] != '\n',
    decreases s.len(),
{
    if s.len() > 0 {
        lemma_feed_no_newline(st, s.drop_last());
        let p = feed_all(st, s.drop_last());
        if s.last() != '\n' {
            assert forall|i: int| 0 <= i < p.2.push(s.last()).len() implies p.2.push(
                s.last(),
            )[i] != '\n' by {
                if i < p.2.len() {
                }
            }
        }
    }
}

/// Feeding `a + b` is feeding `a`, then feeding `b`.
pub proof fn lemma_feed_all_append(st: ScanState, a: Seq<char>, b: Seq<char>)
    ensures
        feed_all(st, a + b) == feed_all(feed_all(st, a), b),
    decreases b.len(),
{
    if b.len() == 0 {
        assert(a + b =~= a);
    } else {
        lemma_feed_all_append(st, a, b.drop_last());
        assert((a + b).drop_last() =~= a + b.drop_last());
        assert((a + b).last() == b.last());
    }
}

proof fn lemma_flatten_push(out: Seq<ChunkModel>, ch: ChunkModel)
    ensures
        flatten(out.push(ch)) == flatten(out) + ch.1.map_values(|c: char| (ch.0, c)),
{
    assert(out.push(ch).drop_last() =~= out);
}

proof fn lemma_flatten_emit(out: Seq<ChunkModel>, c: Option<ChunkModel>)
    ensures
        flatten(emit(out, c)) == flatten(out) + match c {
            None => Seq::<(bool, char)>::empty(),
            Some(ch) => ch.1.map_values(|x: char| (ch.0, x)),
        },
{
    match c {
        None => {
            assert(flatten(out) + Seq::<(bool, char)>::empty() =~= flatten(out));
        },
        Some(ch) => {
            if out.len() > 0 && out.last().0 == ch.0 {
                let u = out.update(out.len() - 1, (ch.0, out.last().1 + ch.1));
                assert(u.drop_last() =~= out.drop_last());
                assert((out.last().1 + ch.1).map_values(|x: char| (ch.0, x)) =~= out.last().1.map_values(
                    |x: char| (out.last().0, x),
                ) + ch.1.map_values(|x: char| (ch.0, x)));
                assert(flatten(out) == flatten(out.drop_last()) + out.last().1.map_values(
                    |x: char| (out.last().0, x),
                ));
                assert(flatten(u) =~= flatten(out) + ch.1.map_values(|x: char| (ch.0, x)));
            } else {
                lemma_flatten_push(out, ch);
            }
        },
    }
}

/// The flattened output does not depend on what was emitted before.
proof fn lemma_feed_all_flatten(i: bool, o: Seq<ChunkModel>, l: Seq<char>, s: Seq<char>)
    ensures
        feed_all((i, o, l), s).0 == feed_all((i, Seq::empty(), l), s).0,
        feed_all((i, o, l), s).2 == feed_all((i, Seq::empty(), l), s).2,
        flatten(feed_all((i, o, l), s).1) == flatten(o) + flatten(
            feed_all((i, Seq::empty(), l), s).1,
        ),
    decreases s.len(),
{
    if s.len() == 0 {
        assert(flatten(Seq::<ChunkModel>::empty()) =~= Seq::<(bool, char)>::empty());
        assert(flatten(o) + Seq::<(bool, char)>::empty() =~= flatten(o));
    } else {
        lemma_feed_all_flatten(i, o, l, s.drop_last());
        let p = feed_all((i, o, l), s.drop_last());
        let q = feed_all((i, Seq::empty(), l), s.drop_last());
        if s.last() == '\n' {
            let step = line_step(p.0, p.2.push(s.last()));
            lemma_flatten_emit(p.1, step.1);
            lemma_flatten_emit(q.1, step.1);
            match step.1 {
                None => {
                    assert(flatten(emit(p.1, step.1)) =~= flatten(o) + flatten(
                        emit(q.1, step.1),
                    ));
                },
                Some(ch) => {
                    assert(flatten(emit(p.1, step.1)) =~= flatten(o) + flatten(
                        emit(q.1, step.1),
                    ));
                },
            }
        }
    }
}

/// Streaming law: splitting the input into two pushes yields the same
/// end state as one push, and the concatenation of the two chunk lists
/// carries exactly the same (kind, character) stream as the single push.
pub proof fn lemma_push_split_invariant(
    inside: bool,
    buf: Seq<char>,
    a: Seq<char>,
    b: Seq<char>,
)
    ensures
        ({
            let first = push_spec(inside, buf, a);
            let second = push_spec(first.0, first.2, b);
            let whole = push_spec(inside, buf, a + b);
            &&& whole.0 == second.0
            &&& whole.2 == second.2
            &&& flatten(whole.1) == flatten(first.1) + flatten(second.1)
        }),
{
    let st: ScanState = (inside, Seq::empty(), buf);
    lemma_feed_all_append(st, a, b);
    let first = feed_all(st, a);
    lemma_feed_all_flatten(first.0, first.1, first.2, b);
}

// ---------------------------------------------------------------------------
// Implementation
// ---------------------------------------------------------------------------
/// Append `s` as text, merging it into a trailing text chunk.
fn append_text(out: &mut Vec<FenceChunk>, s: &str)
    ensures
        chunks_model(final(out)@) == emit(chunks_model(old(out)@), Some((false, s@))),
{
    append_chunk(out, false, s)
}

/// Append `s` as HTML, merging it into a trailing HTML chunk.
fn append_html(out: &mut Vec<FenceChunk>, s: &str)
    ensures
        chunks_model(final(out)@) == emit(chunks_model(old(out)@), Some((true, s@))),
{
    append_chunk(out, true, s)
}

fn append_chunk(out: &mut Vec<FenceChunk>, html: bool, s: &str)
    ensures
        chunks_model(final(out)@) == emit(chunks_model(old(out)@), Some((html, s@))),
{
    let ghost old_m = chunks_model(out@);
    let n = out.len();
    if n > 0 {
        let same = match &out[n - 1] {
            FenceChunk::Text(_) => !html,
            FenceChunk::Html(_) => html,
        };
        if same {
            let last = out.pop().unwrap();
            let merged = match last {
                FenceChunk::Text(mut t) => {
                    t.append(s);
                    FenceChunk::Text(t)
                },
                FenceChunk::Html(mut t) => {
                    t.append(s);
                    FenceChunk::Html(t)
                },
            };
            out.push(merged);
            assert(chunks_model(out@) =~= old_m.update(
                old_m.len() - 1,
                (html, old_m.last().1 + s@),
            ));
            return ;
        }
    }
    let chunk = if html {
        FenceChunk::Html(String::from_str(s))
    } else {
        FenceChunk::Text(String::from_str(s))
    };
    out.push(chunk);
    assert(chunks_model(out@) =~= old_m.push((html, s@)));
}

/// Does `s[from..to]` equal `p`?
fn range_eq(s: &[char], from: usize, to: usize, p: &[char]) -> (r: bool)
    requires
        from <= to <= s@.len(),
    ensures
        r == (s@.subrange(from as int, to as int) == p@),
{
    if to - from != p.len() {
        proof {
            if s@.subrange(from as int, to as int) == p@ {
                assert(false);
            }
        }
        return false;
    }
    occurs_at_exec(s, p, from)
}

/// Process one complete line (or the trailing partial line at finish).
fn consume_line(inside: bool, line: &[char], out: &mut Vec<FenceChunk>) -> (r: bool)
    ensures
        r == line_step(inside, line@).0,
        chunks_model(final(out)@) == emit(chunks_model(old(out)@), line_step(inside, line@).1),
{
    let n = line.len();
    // Strip the line terminator(s).
    let mut j = n;
    assert(line@.take(n as int) =~= line@);
    while j > 0 && (line[j - 1] == '\n' || line[j - 1] == '\r')
        invariant
            j <= n == line@.len(),
            trim_end_newlines(line@.take(j as int)) == trim_end_newlines(line@),
        decreases j,
    {
        assert(line@.take(j as int).drop_last() =~= line@.take(j - 1));
        j = j - 1;
    }
    let ghost trimmed = line@.take(j as int);
    assert(trim_end_newlines(trimmed) == trimmed);
    // Strip leading whitespace.
    let mut k: usize = 0;
    assert(trimmed.skip(0) =~= trimmed);
    while k < j && is_whitespace(line[k])
        invariant
            k <= j <= n == line@.len(),
            trimmed == line@.take(j as int),
            trim_start_ws(trimmed.skip(k as int)) == trim_start_ws(trimmed),
        decreases j - k,
    {
        assert(trimmed.skip(k as int).drop_first() =~= trimmed.skip(k + 1));
        assert(trimmed.skip(k as int)[0] == line@[k as int]);
        k = k + 1;
    }
    proof {
        if k < j {
            assert(trimmed.skip(k as int)[0] == line@[k as int]);
        }
        assert(trimmed.skip(k as int) =~= line@.subrange(k as int, j as int));
    }
    let text = string_from(line);
    if !inside {
        let marker = chars_of("```html-canvas");
        if range_eq(line, k, j, &marker) {
            return true;
        }
        append_text(out, text.as_str());
        false
    } else {
        let marker = chars_of("```");
        if range_eq(line, k, j, &marker) {
            return false;
        }
        append_html(out, text.as_str());
        true
    }
}

impl FenceParser {
    /// Construct an empty parser.
    pub fn new() -> (p: Self)
        ensures
            p.model() == (false, Seq::<char>::empty()),
            p.wf(),
    {
        FenceParser { buf: Vec::new(), inside_canvas: false }
    }

    /// Feed a chunk of text; returns the chunks completed by it. Only
    /// whole lines are consumed; a trailing partial line stays buffered.
    pub fn push(&mut self, fragment: &str) -> (out: Vec<FenceChunk>)
        requires
            old(self).wf(),
        ensures
            final(self).wf(),
            ({
                let r = push_spec(old(self).model().0, old(self).model().1, fragment@);
                &&& chunks_model(out@) == r.1
                &&& final(self).model() == (r.0, r.2)
            }),
    {
        let frag = chars_of(fragment);
        let mut out: Vec<FenceChunk> = Vec::new();
        let mut inside = self.inside_canvas;
        let mut line: Vec<char> = Vec::new();
        std::mem::swap(&mut line, &mut self.buf);
        let ghost st0: ScanState = (inside, Seq::empty(), line@);
        assert(chunks_model(out@) =~= Seq::<ChunkModel>::empty());
        let n = frag.len();
        for i in 0..n
            invariant
                n == frag@.len(),
                frag@ == fragment@,
                st0.1 == Seq::<ChunkModel>::empty(),
                feed_all(st0, frag@.take(i as int)) == (inside, chunks_model(out@), line@),
        {
            let c = frag[i];
            assert(frag@.take(i + 1).drop_last() =~= frag@.take(i as int));
            line.push(c);
            if c == '\n' {
                inside = consume_line(inside, &line, &mut out);
                line = Vec::new();
            }
        }
        assert(frag@.take(n as int) =~= frag@);
        proof {
            lemma_feed_no_newline(st0, frag@);
            assert(feed_all(st0, frag@).2 == line@);
            assert(forall|i: int| 0 <= i < line@.len() ==> line@[i] != '\n');
        }
        self.buf = line;
        self.inside_canvas = inside;
        out
    }

    /// End of stream: flush the pending partial line (if any) and report
    /// whether a fence is still open once that line is read (a closing
    /// fence line with no newline at the end of the stream closes it).
    pub fn finish(self) -> (r: FinishResult)
        ensures
            chunks_model(r.chunks@) == finish_spec(self.model().0, self.model().1),
            r.unclosed_fence == if self.model().1.len() == 0 {
                self.model().0
            } else {
                line_step(self.model().0, self.model().1).0
            },
    {
        let mut chunks: Vec<FenceChunk> = Vec::new();
        let mut unclosed = self.inside_canvas;
        if self.buf.len() > 0 {
            assert(chunks_model(chunks@) =~= Seq::<ChunkModel>::empty());
            unclosed = consume_line(self.inside_canvas, &self.buf, &mut chunks);
        } else {
            assert(chunks_model(chunks@) =~= Seq::<ChunkModel>::empty());
        }
        FinishResult { chunks, unclosed_fence: unclosed }
    }
}

// ---------------------------------------------------------------------------
// Chunk boundaries
// ---------------------------------------------------------------------------
/// No two neighbouring chunks are of the same kind.
spec fn kinds_alternate(out: Seq<ChunkModel>) -> bool {
    forall|i: int| 0 <= i && i + 1 < out.len() ==> #[trigger] out[i].0 != out[i + 1].0
}

/// Emitting a chunk keeps neighbouring kinds distinct.
proof fn lemma_emit_alternates(out: Seq<ChunkModel>, c: Option<ChunkModel>)
    requires
        kinds_alternate(out),
    ensures
        kinds_alternate(emit(out, c)),
{
    let r = emit(out, c);
    match c {
        None => {},
        Some(ch) => {
            assert forall|i: int| 0 <= i && i + 1 < r.len() implies #[trigger] r[i].0 != r[i + 1].0 by {
                if out.len() > 0 && out.last().0 == ch.0 {
                    assert(r[i].0 == out[i].0);
                    assert(r[i + 1].0 == out[i + 1].0);
                } else if i + 1 < out.len() {
                    assert(r[i] == out[i]);
                    assert(r[i + 1] == out[i + 1]);
                } else {
                    assert(r[i] == out[i]);
                    assert(r[i + 1] == ch);
                }
            }
        },
    }
}

/// Scanning keeps neighbouring kinds distinct.
proof fn lemma_feed_all_alternates(st: ScanState, s: Seq<char>)
    requires
        kinds_alternate(st.1),
    ensures
        kinds_alternate(feed_all(st, s).1),
    decreases s.len(),
{
    if s.len() > 0 {
        lemma_feed_all_alternates(st, s.drop_last());
        let m = feed_all(st, s.drop_last());
        if s.last() == '\n' {
            lemma_emit_alternates(m.1, line_step(m.0, m.2.push(s.last())).1);
        }
    }
}

/// One push never hands out two neighbouring chunks of the same kind: the
/// text of consecutive lines of one kind comes out as a single chunk, so a
/// text chunk is always followed by an HTML chunk and the other way round.
pub proof fn law_push_chunks_alternate(inside: bool, buf: Seq<char>, fragment: Seq<char>)
    ensures
        ({
            let out = push_spec(inside, buf, fragment).1;
            forall|i: int| 0 <= i && i + 1 < out.len() ==> #[trigger] out[i].0 != out[i + 1].0
        }),
{
    lemma_feed_all_alternates((inside, Seq::empty(), buf), fragment);
}

} // verus!
