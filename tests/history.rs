use sereal::history::{LineHistory, HISTORY_MAX_LINES};

#[test]
fn keeps_the_last_lines_when_over_the_cap() {
    let mut history = LineHistory::new();
    for i in 0..5001usize {
        let c = char::from(b'a' + (i % 26) as u8);
        history.append(&format!("{}\n", c));
    }
    assert_eq!(history.line_count(), 5000);
    assert_eq!(HISTORY_MAX_LINES, 5000);
    let text = history.text();
    assert_eq!(text.len(), 10000);
    assert!(text.starts_with("b\nc\n"));
    assert!(text.ends_with("\n"));
}

#[test]
fn partial_line_is_kept() {
    let mut history = LineHistory::new();
    for _ in 0..5000 {
        history.append("x\n");
    }
    history.append("partial");
    assert_eq!(history.line_count(), 5000);
    assert!(history.text().starts_with("x\n"));
    assert!(history.text().ends_with("x\npartial"));
    assert_eq!(history.text().len(), 10007);
}

#[test]
fn counts_every_line_feed_of_a_chunk() {
    let mut history = LineHistory::new();
    history.append("one\ntwo\nthr");
    assert_eq!(history.line_count(), 2);
    history.append("ee\n");
    assert_eq!(history.line_count(), 3);
    assert_eq!(history.text().as_str(), "one\ntwo\nthree\n");
}

#[test]
fn a_large_chunk_evicts_several_whole_lines() {
    let mut history = LineHistory::new();
    history.append("first\n");
    let mut chunk = String::new();
    for _ in 0..5001 {
        chunk.push_str("y\n");
    }
    chunk.push_str("tail");
    history.append(&chunk);
    assert_eq!(history.line_count(), 5000);
    assert!(!history.text().contains("first"));
    assert!(history.text().ends_with("y\ntail"));
    assert_eq!(history.text().len(), 10004);
}

#[test]
fn clear_empties() {
    let mut history = LineHistory::new();
    history.append("abc\ndef");
    history.clear();
    assert_eq!(history.line_count(), 0);
    assert_eq!(history.text().as_str(), "");
}
