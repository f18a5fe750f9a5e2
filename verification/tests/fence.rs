use savvagent::fence::{FenceChunk, FenceParser};

#[test]
fn no_fence_is_pure_text() {
    let mut p = FenceParser::new();
    let chunks = p.push("hello\nworld\n");
    assert_eq!(chunks, vec![FenceChunk::Text("hello\nworld\n".into())]);
    let fin = p.finish();
    assert!(fin.chunks.is_empty());
    assert!(!fin.unclosed_fence);
}

#[test]
fn complete_fence_extracts_html() {
    let mut p = FenceParser::new();
    let mut chunks = p.push("Here:\n");
    chunks.extend(p.push("```html-canvas\n"));
    chunks.extend(p.push("<!doctype html><body>x</body>\n"));
    chunks.extend(p.push("```\n"));
    chunks.extend(p.push("trailing\n"));

    assert_eq!(
        chunks,
        vec![
            FenceChunk::Text("Here:\n".into()),
            FenceChunk::Html("<!doctype html><body>x</body>\n".into()),
            FenceChunk::Text("trailing\n".into()),
        ],
    );
    let fin = p.finish();
    assert!(fin.chunks.is_empty());
    assert!(!fin.unclosed_fence);
}

#[test]
fn other_code_fences_pass_through_as_text() {
    let mut p = FenceParser::new();
    let chunks = p.push("```rust\nfn x() {}\n```\n");
    assert_eq!(chunks, vec![FenceChunk::Text("```rust\nfn x() {}\n```\n".into())]);
}

#[test]
fn plain_html_fence_is_not_canvas() {
    let mut p = FenceParser::new();
    let chunks = p.push("```html\n<p>x</p>\n```\n");
    assert_eq!(chunks, vec![FenceChunk::Text("```html\n<p>x</p>\n```\n".into())]);
}

#[test]
fn split_across_pushes() {
    let mut p = FenceParser::new();
    let mut chunks = p.push("```ht");
    chunks.extend(p.push("ml-canvas\n<b>"));
    chunks.extend(p.push("hi</b>\n```\n"));
    assert_eq!(chunks, vec![FenceChunk::Html("<b>hi</b>\n".into())]);
}

#[test]
fn unclosed_fence_flushed_at_finish() {
    let mut p = FenceParser::new();
    let chunks = p.push("```html-canvas\n<body>");
    assert!(chunks.is_empty());
    let fin = p.finish();
    assert_eq!(fin.chunks, vec![FenceChunk::Html("<body>".into())]);
    assert!(fin.unclosed_fence);
}

// The same stream split at every byte boundary yields the same chunks once
// adjacent text chunks are merged (the streaming split law on a concrete
// stream).
#[test]
fn fence_output_does_not_depend_on_how_input_is_split() {
    let input = "intro\n```html-canvas\n<p>a</p>\n```\noutro\n";
    let mut whole = FenceParser::new();
    let mut expect = whole.push(input);
    expect.extend(whole.finish().chunks);
    for cut in 0..input.len() {
        let mut p = FenceParser::new();
        let mut got = p.push(&input[..cut]);
        got.extend(p.push(&input[cut..]));
        got.extend(p.finish().chunks);
        let flat = |v: &Vec<FenceChunk>| {
            let mut out: Vec<(bool, String)> = Vec::new();
            for c in v {
                let (h, s) = match c {
                    FenceChunk::Text(s) => (false, s.clone()),
                    FenceChunk::Html(s) => (true, s.clone()),
                };
                match out.last_mut() {
                    Some(last) if last.0 == h && !h => last.1.push_str(&s),
                    _ => out.push((h, s)),
                }
            }
            out
        };
        assert_eq!(flat(&got), flat(&expect), "cut at {cut}");
    }
}

#[test]
fn finish_on_fresh_parser_is_empty() {
    let p = FenceParser::new();
    let fin = p.finish();
    assert!(fin.chunks.is_empty());
    assert!(!fin.unclosed_fence);
}

#[test]
fn closing_fence_without_newline_at_end_closes_the_fence() {
    let mut p = FenceParser::new();
    let chunks = p.push("```html-canvas\n<b>\n```");
    assert_eq!(chunks, vec![FenceChunk::Html("<b>\n".into())]);
    let fin = p.finish();
    assert!(fin.chunks.is_empty());
    assert!(!fin.unclosed_fence);
}
