//! A small Server-Sent Events decoder: bytes arrive in arbitrary chunks,
//! frames end at a blank line, and each frame yields its `event:` name and
//! its `data:` lines joined by newlines.
use vstd::prelude::*;

use crate::json::key_is;
use crate::protocol::StreamEvent;
use crate::text::{concat2, chars_of, has_prefix, push_char, starts_with, string_from_range, trim_string,
    trim_ws};

verus! {

/// One decoded frame.
#[derive(Debug, Clone, PartialEq, Eq)]
pub struct SseFrame {
    /// The `event:` name, trimmed, when present.
    pub event: Option<String>,
    /// The `data:` lines joined by newlines.
    pub data: String,
}

/// The model of a frame: its event name and data.
pub type FrameModel = (Option<Seq<char>>, Seq<char>);

/// The model of an optional string.
pub open spec fn opt_view(o: Option<String>) -> Option<Seq<char>> {
    match o {
        Some(s) => Some(s@),
        None => None,
    }
}

/// The model of a frame.
pub open spec fn frame_model(f: SseFrame) -> FrameModel {
    (opt_view(f.event), f.data@)
}

// ---------------------------------------------------------------------------
// Framing
// ---------------------------------------------------------------------------
/// The end of the first frame separator at or after `i`: a blank line
/// written `\n\n` or `\r\n\r\n`.
pub open spec fn sep_end_from(b: Seq<u8>, i: int) -> Option<int>
    decreases b.len() - i,
{
    if i < 0 || i + 1 >= b.len() {
        None
    } else if b[i] == 10 && b[i + 1] == 10 {
        Some(i + 2)
    } else if i + 3 < b.len() && b[i] == 13 && b[i + 1] == 10 && b[i + 2] == 13 && b[i + 3] == 10 {
        Some(i + 4)
    } else {
        sep_end_from(b, i + 1)
    }
}

/// The end of the first frame in `b`.
pub open spec fn sep_end(b: Seq<u8>) -> Option<int> {
    sep_end_from(b, 0)
}

/// A separator ends inside the buffer, after at least two bytes.
pub proof fn lemma_sep_end_bounds(b: Seq<u8>, i: int)
    requires
        0 <= i,
    ensures
        sep_end_from(b, i) matches Some(e) ==> i + 2 <= e <= b.len(),
    decreases b.len() - i,
{
    if i + 1 < b.len() {
        lemma_sep_end_bounds(b, i + 1);
    }
}

/// The text of `bytes` read as UTF-8: the decoded characters when the bytes
/// are well-formed UTF-8 (no overlong form, no surrogate, nothing past
/// U+10FFFF), `None` otherwise.
pub open spec fn utf8_text(bytes: Seq<u8>) -> Option<Seq<char>> {
    if vstd::utf8::valid_utf8(bytes) {
        Some(vstd::utf8::decode_utf8(bytes))
    } else {
        None
    }
}

/// `std::str::from_utf8`, copied into a `String`: as its documentation
/// says, it succeeds exactly on well-formed UTF-8, and the string holds the
/// characters the bytes encode.
#[verifier::external_body]
fn decode_utf8(bytes: &[u8]) -> (r: Option<String>)
    ensures
        opt_view(r) == utf8_text(bytes@),
{
    match std::str::from_utf8(bytes) {
        Ok(s) => Some(s.to_string()),
        Err(_) => None,
    }
}

// ---------------------------------------------------------------------------
// Lines and fields
// ---------------------------------------------------------------------------
/// Index of the first `\n` in `s` (its length when there is none).
pub open spec fn nl_index(s: Seq<char>) -> int
    decreases s.len(),
{
    if s.len() == 0 {
        0
    } else if s[0] == '\n' {
        0
    } else {
        1 + nl_index(s.drop_first())
    }
}

/// `str::lines`: split at `\n`, dropping a `\r` right before it; a final
/// line ending yields no empty last line.
pub open spec fn text_lines(t: Seq<char>) -> Seq<Seq<char>>
    decreases t.len(),
{
    if t.len() == 0 {
        Seq::empty()
    } else {
        let k = nl_index(t);
        if k >= t.len() || k < 0 {
            seq![t]
        } else {
            let l = t.take(k);
            let l2 = if l.len() > 0 && l.last() == '\r' {
                l.drop_last()
            } else {
                l
            };
            seq![l2] + text_lines(t.skip(k + 1))
        }
    }
}

/// The event name and data lines after one more line: `event:` sets the
/// trimmed name, `data:` adds its value (one leading space dropped), other
/// lines are ignored.
pub open spec fn apply_line(f: (Option<Seq<char>>, Seq<Seq<char>>), line: Seq<char>) -> (
    Option<Seq<char>>,
    Seq<Seq<char>>,
) {
    if has_prefix(line, "event:"@) {
        (Some(trim_ws(line.skip(6))), f.1)
    } else if has_prefix(line, "data:"@) {
        let rest = line.skip(5);
        (f.0, f.1.push(if rest.len() > 0 && rest[0] == ' ' { rest.skip(1) } else { rest }))
    } else {
        f
    }
}

/// The event name and data lines of a frame's lines.
pub open spec fn fields_of(lines: Seq<Seq<char>>) -> (Option<Seq<char>>, Seq<Seq<char>>)
    decreases lines.len(),
{
    if lines.len() == 0 {
        (None, Seq::empty())
    } else {
        apply_line(fields_of(lines.drop_last()), lines.last())
    }
}

/// Data lines joined by newlines.
pub open spec fn join_nl(d: Seq<Seq<char>>) -> Seq<char>
    decreases d.len(),
{
    if d.len() == 0 {
        Seq::empty()
    } else if d.len() == 1 {
        d[0]
    } else {
        join_nl(d.drop_last()).push('\n') + d.last()
    }
}

/// Pop the next frame from `buf`: the frame (if any) and what remains.
/// Frames with neither event nor data are skipped; a frame that is not
/// valid UTF-8 is consumed and ends this pop with nothing.
pub open spec fn pop_spec(buf: Seq<u8>) -> (Option<FrameModel>, Seq<u8>)
    decreases buf.len(),
{
    match sep_end(buf) {
        None => (None, buf),
        Some(end) => {
            proof {
                lemma_sep_end_bounds(buf, 0);
            }
            let rest = buf.skip(end);
            match utf8_text(buf.take(end)) {
                None => (None, rest),
                Some(t) => {
                    let f = fields_of(text_lines(t));
                    if f.1.len() == 0 && f.0 is None {
                        pop_spec(rest)
                    } else {
                        (Some((f.0, join_nl(f.1))), rest)
                    }
                },
            }
        },
    }
}

/// Pop the next frame that carries data: frames without a `data:` line are
/// skipped whatever their `event:` line says, and only the joined data is
/// kept; a frame that is not valid UTF-8 is consumed and ends this pop with
/// nothing.
pub open spec fn pop_data_spec(buf: Seq<u8>) -> (Option<Seq<char>>, Seq<u8>)
    decreases buf.len(),
{
    match sep_end(buf) {
        None => (None, buf),
        Some(end) => {
            proof {
                lemma_sep_end_bounds(buf, 0);
            }
            let rest = buf.skip(end);
            match utf8_text(buf.take(end)) {
                None => (None, rest),
                Some(t) => {
                    let f = fields_of(text_lines(t));
                    if f.1.len() == 0 {
                        pop_data_spec(rest)
                    } else {
                        (Some(join_nl(f.1)), rest)
                    }
                },
            }
        },
    }
}

/// `nl_index` finds the first newline.
proof fn lemma_nl_index(s: Seq<char>, k: int)
    requires
        0 <= k <= s.len(),
        forall|j: int| 0 <= j < k ==> s[j] != '\n',
        k == s.len() || s[k] == '\n',
    ensures
        nl_index(s) == k,
    decreases k,
{
    if k > 0 {
        assert forall|j: int| 0 <= j < k - 1 implies s.drop_first()[j] != '\n' by {
            assert(s.drop_first()[j] == s[j + 1]);
        }
        if k < s.len() {
            assert(s.drop_first()[k - 1] == s[k]);
        }
        lemma_nl_index(s.drop_first(), k - 1);
    }
}

/// Copy `t[from..to]` into a vector.
fn sub_vec(t: &[char], from: usize, to: usize) -> (r: Vec<char>)
    requires
        from <= to <= t@.len(),
    ensures
        r@ == t@.subrange(from as int, to as int),
{
    let mut r: Vec<char> = Vec::new();
    let mut i = from;
    while i < to
        invariant
            from <= i <= to <= t@.len(),
            r@ == t@.subrange(from as int, i as int),
        decreases to - i,
    {
        r.push(t[i]);
        assert(t@.subrange(from as int, i + 1) =~= t@.subrange(from as int, i as int).push(t@[i as int]));
        i = i + 1;
    }
    r
}

/// Fold one line into the event name and data lines.
fn apply_line_exec(line: &[char], event: &mut Option<String>, data: &mut Vec<String>)
    ensures
        (opt_view(*final(event)), views(final(data)@)) == apply_line((opt_view(*old(event)), views(old(data)@)), line@),
{
    proof {
        reveal_strlit("event:");
        reveal_strlit("data:");
    }
    let event_tag = chars_of("event:");
    let data_tag = chars_of("data:");
    let n = line.len();
    if starts_with(line, event_tag.as_slice()) {
        let rest = sub_vec(line, 6, n);
        assert(rest@ =~= line@.skip(6));
        *event = Some(trim_string(rest.as_slice()));
    } else if starts_with(line, data_tag.as_slice()) {
        let from: usize = if n > 5 && line[5] == ' ' { 6 } else { 5 };
        let ghost prev = data@;
        data.push(string_from_range(line, from, n));
        proof {
            let rest = line@.skip(5);
            if n > 5 && line@[5] == ' ' {
                assert(rest.skip(1) =~= line@.subrange(6, n as int));
            } else {
                assert(rest =~= line@.subrange(5, n as int));
            }
            assert(views(data@) =~= views(prev).push(data@.last()@));
        }
    }
}

/// The views of a list of strings.
pub open spec fn views(v: Seq<String>) -> Seq<Seq<char>> {
    v.map_values(|s: String| s@)
}

/// The event name and data lines of a frame's text.
fn frame_fields(t: &[char]) -> (r: (Option<String>, Vec<String>))
    ensures
        (opt_view(r.0), views(r.1@)) == fields_of(text_lines(t@)),
{
    let n = t.len();
    let mut event: Option<String> = None;
    let mut data: Vec<String> = Vec::new();
    let mut start: usize = 0;
    let ghost mut done: Seq<Seq<char>> = Seq::empty();
    proof {
        assert(t@.skip(0) =~= t@);
        assert(views(data@) =~= Seq::<Seq<char>>::empty());
    }
    for i in 0..n
        invariant
            n == t@.len(),
            start <= i,
            forall|j: int| start <= j < i ==> t@[j] != '\n',
            text_lines(t@) == done + text_lines(t@.skip(start as int)),
            (opt_view(event), views(data@)) == fields_of(done),
    {
        if t[i] == '\n' {
            let ghost s = t@.skip(start as int);
            proof {
                let k = (i - start) as int;
                assert forall|j: int| 0 <= j < k implies s[j] != '\n' by {
                    assert(s[j] == t@[start + j]);
                }
                assert(s[k] == t@[i as int]);
                lemma_nl_index(s, k);
                assert(s.skip(k + 1) =~= t@.skip(i + 1));
            }
            let end: usize = if i > start && t[i - 1] == '\r' { i - 1 } else { i };
            let line = sub_vec(t, start, end);
            proof {
                let k = (i - start) as int;
                let l = s.take(k);
                assert(l =~= t@.subrange(start as int, i as int));
                if i > start && t@[i - 1] == '\r' {
                    assert(l.drop_last() =~= line@);
                } else {
                    assert(l =~= line@);
                }
            }
            apply_line_exec(line.as_slice(), &mut event, &mut data);
            proof {
                let new_done = done.push(line@);
                assert(new_done.drop_last() =~= done);
                assert(done + text_lines(s) =~= new_done + text_lines(t@.skip(i + 1)));
                done = new_done;
            }
            start = i + 1;
        }
    }
    if start < n {
        let line = sub_vec(t, start, n);
        proof {
            let s = t@.skip(start as int);
            assert(s =~= line@);
            lemma_nl_index(s, s.len() as int);
            let new_done = done.push(line@);
            assert(new_done.drop_last() =~= done);
            assert(done + text_lines(s) =~= new_done);
            done = new_done;
        }
        apply_line_exec(line.as_slice(), &mut event, &mut data);
    } else {
        proof {
            assert(t@.skip(start as int).len() == 0);
            assert(done + text_lines(t@.skip(start as int)) =~= done);
        }
    }
    (event, data)
}

/// Join data lines with newlines.
pub fn join_lines(d: &Vec<String>) -> (r: String)
    ensures
        r@ == join_nl(views(d@)),
{
    let mut out = String::new();
    let n = d.len();
    for i in 0..n
        invariant
            n == d@.len(),
            out@ == join_nl(views(d@).take(i as int)),
    {
        proof {
            assert(views(d@).take(i + 1).drop_last() =~= views(d@).take(i as int));
        }
        if i > 0 {
            push_char(&mut out, '\n');
        }
        out.append(d[i].as_str());
    }
    proof {
        assert(views(d@).take(n as int) =~= views(d@));
    }
    out
}

/// Find the end of the first frame separator.
fn find_sep(b: &[u8]) -> (r: Option<usize>)
    ensures
        match r {
            Some(e) => sep_end(b@) == Some(e as int),
            None => sep_end(b@) is None,
        },
{
    let len = b.len();
    let mut i: usize = 0;
    while len >= 2 && i < len - 1
        invariant
            len == b@.len(),
            sep_end(b@) == sep_end_from(b@, i as int),
        decreases len - i,
    {
        if b[i] == 10 && b[i + 1] == 10 {
            return Some(i + 2);
        }
        if len - i > 3 && b[i] == 13 && b[i + 1] == 10 && b[i + 2] == 13 && b[i + 3] == 10 {
            return Some(i + 4);
        }
        i = i + 1;
    }
    None
}

/// Bytes received but not yet framed.
#[derive(Debug, Clone)]
pub struct SseDecoder {
    buf: Vec<u8>,
}

impl SseDecoder {
    /// The bytes not yet framed.
    pub closed spec fn pending(&self) -> Seq<u8> {
        self.buf@
    }

    /// A decoder with nothing received.
    pub fn new() -> (d: SseDecoder)
        ensures
            d.pending().len() == 0,
    {
        SseDecoder { buf: Vec::new() }
    }

    /// Receive a chunk of bytes.
    pub fn push_bytes(&mut self, chunk: &[u8])
        ensures
            final(self).pending() == old(self).pending() + chunk@,
    {
        let n = chunk.len();
        for i in 0..n
            invariant
                n == chunk@.len(),
                self.buf@ == old(self).buf@ + chunk@.take(i as int),
        {
            self.buf.push(chunk[i]);
            assert(chunk@.take(i + 1) =~= chunk@.take(i as int).push(chunk@[i as int]));
        }
        assert(chunk@.take(n as int) =~= chunk@);
    }

    /// Pop the next complete frame, if one has arrived (see `pop_spec`).
    pub fn try_pop_frame(&mut self) -> (r: Option<SseFrame>)
        ensures
            (match r {
                Some(f) => Some(frame_model(f)),
                None => None,
            }, final(self).pending()) == pop_spec(old(self).pending()),
    {
        loop
            invariant
                pop_spec(self.buf@) == pop_spec(old(self).buf@),
            decreases self.buf@.len(),
        {
            let end = match find_sep(self.buf.as_slice()) {
                Some(e) => e,
                None => {
                    return None;
                },
            };
            proof {
                lemma_sep_end_bounds(self.buf@, 0);
            }
            let ghost before = self.buf@;
            let mut frame = self.buf.split_off(end);
            std::mem::swap(&mut frame, &mut self.buf);
            assert(frame@ == before.take(end as int));
            assert(self.buf@ == before.skip(end as int));
            assert(sep_end(before) == Some(end as int));
            let text = match decode_utf8(frame.as_slice()) {
                Some(t) => t,
                None => {
                    assert(utf8_text(before.take(end as int)) is None);
                    assert(pop_spec(before) == (None::<FrameModel>, before.skip(end as int)));
                    return None;
                },
            };
            let cs = chars_of(text.as_str());
            let (event, data) = frame_fields(cs.as_slice());
            assert(utf8_text(before.take(end as int)) == Some(cs@));
            if data.len() == 0 && event.is_none() {
                assert(views(data@).len() == 0);
                assert(pop_spec(before) == pop_spec(before.skip(end as int)));
            } else {
                let joined = join_lines(&data);
                let f = SseFrame { event, data: joined };
                assert(pop_spec(before) == (Some(frame_model(f)), before.skip(end as int)));
                return Some(f);
            }
        }
    }

    /// Pop the data of the next frame that has any (see `pop_data_spec`).
    pub fn try_pop_data(&mut self) -> (r: Option<String>)
        ensures
            (opt_view(r), final(self).pending()) == pop_data_spec(old(self).pending()),
    {
        loop
            invariant
                pop_data_spec(self.buf@) == pop_data_spec(old(self).buf@),
            decreases self.buf@.len(),
        {
            let end = match find_sep(self.buf.as_slice()) {
                Some(e) => e,
                None => {
                    return None;
                },
            };
            proof {
                lemma_sep_end_bounds(self.buf@, 0);
            }
            let ghost before = self.buf@;
            let mut frame = self.buf.split_off(end);
            std::mem::swap(&mut frame, &mut self.buf);
            assert(frame@ == before.take(end as int));
            assert(self.buf@ == before.skip(end as int));
            assert(sep_end(before) == Some(end as int));
            let text = match decode_utf8(frame.as_slice()) {
                Some(t) => t,
                None => {
                    assert(utf8_text(before.take(end as int)) is None);
                    assert(pop_data_spec(before) == (None::<Seq<char>>, before.skip(end as int)));
                    return None;
                },
            };
            let cs = chars_of(text.as_str());
            let (_event, data) = frame_fields(cs.as_slice());
            assert(utf8_text(before.take(end as int)) == Some(cs@));
            if data.len() == 0 {
                assert(views(data@).len() == 0);
                assert(pop_data_spec(before) == pop_data_spec(before.skip(end as int)));
            } else {
                let joined = join_lines(&data);
                assert(pop_data_spec(before) == (Some(joined@), before.skip(end as int)));
                return Some(joined);
            }
        }
    }
}

// ---------------------------------------------------------------------------
// Chunking does not matter
// ---------------------------------------------------------------------------
/// A separator found in `a` is found at the same place whatever follows.
proof fn lemma_sep_end_from_prefix(a: Seq<u8>, b: Seq<u8>, i: int)
    requires
        0 <= i,
        sep_end_from(a, i) is Some,
    ensures
        sep_end_from(a + b, i) == sep_end_from(a, i),
    decreases a.len() - i,
{
    let ab = a + b;
    lemma_sep_end_bounds(a, i);
    assert(i + 1 < a.len());
    assert(ab[i] == a[i] && ab[i + 1] == a[i + 1]);
    if a[i] == 10 && a[i + 1] == 10 {
    } else if i + 3 < a.len() && a[i] == 13 && a[i + 1] == 10 && a[i + 2] == 13 && a[i + 3] == 10 {
        assert(ab[i + 2] == a[i + 2] && ab[i + 3] == a[i + 3]);
    } else {
        lemma_sep_end_from_prefix(a, b, i + 1);
        lemma_sep_end_bounds(a, i + 1);
        if i + 3 < a.len() {
            assert(ab[i + 2] == a[i + 2] && ab[i + 3] == a[i + 3]);
        } else {
            // The separator found from `i + 1` ends `a`: it is `\n\n` at
            // `i + 1`, so `a[i + 2]` is a newline and no `\r\n\r\n` starts at `i`.
            assert(sep_end_from(a, i + 1) == Some(i + 3));
            assert(sep_end_from(a, i + 2) is None);
            assert(a[i + 2] == 10);
            assert(ab[i + 2] == a[i + 2]);
        }
    }
}

/// A frame that is complete in the bytes received so far is decoded the same
/// whatever bytes arrive after it, and those bytes stay pending behind it.
pub proof fn law_complete_frame_ignores_later_bytes(a: Seq<u8>, b: Seq<u8>)
    requires
        pop_spec(a).0 is Some,
    ensures
        pop_spec(a + b) == (pop_spec(a).0, pop_spec(a).1 + b),
    decreases a.len(),
{
    let e = sep_end(a)->0;
    lemma_sep_end_from_prefix(a, b, 0);
    lemma_sep_end_bounds(a, 0);
    assert((a + b).take(e) =~= a.take(e));
    assert((a + b).skip(e) =~= a.skip(e) + b);
    let t = utf8_text(a.take(e))->0;
    let f = fields_of(text_lines(t));
    if f.1.len() == 0 && f.0 is None {
        law_complete_frame_ignores_later_bytes(a.skip(e), b);
    }
}

/// The same holds of data frames.
pub proof fn law_complete_data_frame_ignores_later_bytes(a: Seq<u8>, b: Seq<u8>)
    requires
        pop_data_spec(a).0 is Some,
    ensures
        pop_data_spec(a + b) == (pop_data_spec(a).0, pop_data_spec(a).1 + b),
    decreases a.len(),
{
    let e = sep_end(a)->0;
    lemma_sep_end_from_prefix(a, b, 0);
    lemma_sep_end_bounds(a, 0);
    assert((a + b).take(e) =~= a.take(e));
    assert((a + b).skip(e) =~= a.skip(e) + b);
    let t = utf8_text(a.take(e))->0;
    let f = fields_of(text_lines(t));
    if f.1.len() == 0 {
        law_complete_data_frame_ignores_later_bytes(a.skip(e), b);
    }
}

/// Whether a frame is a keep-alive: its event name is `ping`. Such a
/// frame is answered with a ping event and its data is not decoded.
pub fn is_ping(frame: &SseFrame) -> (r: bool)
    ensures
        r == (frame.event matches Some(e) && e@ == "ping"@),
{
    match &frame.event {
        Some(e) => key_is(e.as_str(), "ping"),
        None => false,
    }
}

/// The warning emitted for a frame whose data did not decode, carrying the
/// decoder's reason; the stream goes on with the next frame.
pub fn invalid_payload_warning(reason: &str) -> (ev: StreamEvent)
    ensures
        ev matches StreamEvent::Warning { message } && message@ == "invalid SSE payload: "@ + reason@,
{
    StreamEvent::Warning { message: concat2("invalid SSE payload: ", reason) }
}

} // verus!
