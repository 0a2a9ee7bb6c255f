//! Server-sent event framing.

use jarvis::ai::sse::{LineBuffer, SseParser};

fn lines_of(chunks: &[&[u8]]) -> Vec<Vec<u8>> {
    let mut buf = LineBuffer::new();
    let mut out = Vec::new();
    for c in chunks {
        out.extend(buf.feed(c));
    }
    out
}

#[test]
fn lines_split_on_lf_and_crlf() {
    let lines = lines_of(&[b"event: a\r\ndata: 1\n\npartial"]);
    assert_eq!(lines, vec![b"event: a".to_vec(), b"data: 1".to_vec(), Vec::new()]);
}

#[test]
fn chunk_boundaries_do_not_matter() {
    let whole = lines_of(&[b"data: hello\r\n\ndata: x\n"]);
    let pieces = lines_of(&[b"da", b"ta: hel", b"lo\r", b"\n", b"\nda", b"ta: x", b"\n"]);
    assert_eq!(whole, pieces);
}

fn events(lines: &[&str]) -> Vec<(Option<String>, String)> {
    let mut p = SseParser::new();
    lines.iter().filter_map(|l| p.feed_line(l)).map(|e| (e.event, e.data)).collect()
}

#[test]
fn events_gather_typed_multiline_data() {
    let got = events(&["event: content_block_delta", "data: {\"a\":1}", "", ": keep-alive", "data:x", "data: y", ""]);
    assert_eq!(
        got,
        vec![
            (Some("content_block_delta".to_string()), "{\"a\":1}".to_string()),
            (None, "x\ny".to_string()),
        ]
    );
}

#[test]
fn blank_line_without_data_dispatches_nothing() {
    assert!(events(&["event: ping", ""]).is_empty());
    assert!(events(&["id: 7", "retry: 10", ""]).is_empty());
    assert_eq!(events(&["data", ""]), vec![(None, String::new())]);
}
