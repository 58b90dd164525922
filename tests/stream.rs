use ollama_bridge::stream::{StreamNotice, StreamRelay};

fn kinds(notices: &[StreamNotice]) -> Vec<String> {
    notices
        .iter()
        .map(|n| match n {
            StreamNotice::Chunk(t) => format!("chunk:{}", t),
            StreamNotice::Error(m) => format!("error:{}", m),
            StreamNotice::Done => String::from("done"),
        })
        .collect()
}

#[test]
fn only_success_status_opens_a_relay() {
    assert!(StreamRelay::open(200).is_some());
    assert!(StreamRelay::open(299).is_some());
    assert!(StreamRelay::open(199).is_none());
    assert!(StreamRelay::open(300).is_none());
    assert!(StreamRelay::open(404).is_none());
    assert!(StreamRelay::open(500).is_none());
}

#[test]
fn chunks_are_relayed_in_order_then_done() {
    let mut r = StreamRelay::open(200).unwrap();
    let mut all = Vec::new();
    all.extend(r.on_bytes(b"{\"response\":\"Hel\"}".to_vec()));
    all.extend(r.on_bytes("lo \u{e9}".as_bytes().to_vec()));
    assert!(!r.is_finished());
    all.extend(r.on_end());
    assert!(r.is_finished());
    assert_eq!(kinds(&all), vec!["chunk:{\"response\":\"Hel\"}", "chunk:lo \u{e9}", "done"]);
}

#[test]
fn empty_stream_still_ends_with_done() {
    let mut r = StreamRelay::open(204).unwrap();
    assert_eq!(kinds(&r.on_end()), vec!["done"]);
}

#[test]
fn transport_failure_ends_with_error_then_done() {
    let mut r = StreamRelay::open(200).unwrap();
    let mut all = r.on_bytes(b"a".to_vec());
    all.extend(r.on_failure(String::from("connection reset")));
    assert!(r.is_finished());
    assert_eq!(kinds(&all), vec!["chunk:a", "error:connection reset", "done"]);
}

#[test]
fn immediate_failure_gives_error_then_done() {
    let mut r = StreamRelay::open(200).unwrap();
    assert_eq!(kinds(&r.on_failure(String::from("boom"))), vec!["error:boom", "done"]);
}

#[test]
fn invalid_text_ends_the_stream() {
    let mut r = StreamRelay::open(200).unwrap();
    let all = r.on_bytes(vec![0x66, 0xff, 0x66]);
    assert!(r.is_finished());
    assert_eq!(kinds(&all), vec!["error:chunk is not UTF-8", "done"]);
}

#[test]
fn empty_chunk_is_empty_text() {
    let mut r = StreamRelay::open(200).unwrap();
    assert_eq!(kinds(&r.on_bytes(Vec::new())), vec!["chunk:"]);
    assert!(!r.is_finished());
}
