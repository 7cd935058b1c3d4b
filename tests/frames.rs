use docker_dns::frames::{DecodeStep, EventFrameDecoder, StopReason, StreamEvent};

fn feed_all(chunks: &[&[u8]]) -> Vec<Vec<u8>> {
    let mut d = EventFrameDecoder::new();
    let mut out = Vec::new();
    for c in chunks {
        match d.on_event(StreamEvent::Chunk(c.to_vec())) {
            DecodeStep::Lines(lines) => out.extend(lines),
            DecodeStep::Stop(_) => panic!("stopped on a chunk"),
        }
    }
    out
}

const EVENTS: &[u8] = b"{\"Type\":\"container\",\"Action\":\"start\"}\n{\"Type\":\"image\"}\n{\"a\":1}\n";

fn expected() -> Vec<Vec<u8>> {
    vec![
        b"{\"Type\":\"container\",\"Action\":\"start\"}".to_vec(),
        b"{\"Type\":\"image\"}".to_vec(),
        b"{\"a\":1}".to_vec(),
    ]
}

#[test]
fn whole_stream_in_one_chunk() {
    assert_eq!(feed_all(&[EVENTS]), expected());
}

#[test]
fn every_split_point_gives_the_same_lines() {
    for i in 0..=EVENTS.len() {
        for j in i..=EVENTS.len() {
            let got = feed_all(&[&EVENTS[..i], &EVENTS[i..j], &EVENTS[j..]]);
            assert_eq!(got, expected(), "split at {} and {}", i, j);
        }
    }
}

#[test]
fn byte_by_byte_chunks() {
    let chunks: Vec<&[u8]> = EVENTS.chunks(1).collect();
    assert_eq!(feed_all(&chunks), expected());
}

#[test]
fn partial_line_waits_for_the_rest() {
    let mut d = EventFrameDecoder::new();
    let lines = d.push_chunk(b"{\"Type\":");
    assert!(lines.is_empty());
    let lines = d.push_chunk(b"\"x\"}\n{\"y\"");
    assert_eq!(lines, vec![b"{\"Type\":\"x\"}".to_vec()]);
    let lines = d.push_chunk(b":1}\n");
    assert_eq!(lines, vec![b"{\"y\":1}".to_vec()]);
}

#[test]
fn cancellation_stops_without_more_lines() {
    let mut d = EventFrameDecoder::new();
    assert!(matches!(d.on_event(StreamEvent::Chunk(b"{\"a\":".to_vec())), DecodeStep::Lines(l) if l.is_empty()));
    assert!(matches!(d.on_event(StreamEvent::Cancelled), DecodeStep::Stop(StopReason::Cancelled)));
    assert_eq!(d.stopped(), Some(StopReason::Cancelled));
    assert!(matches!(
        d.on_event(StreamEvent::Chunk(b"1}\n".to_vec())),
        DecodeStep::Stop(StopReason::Cancelled)
    ));
}

#[test]
fn end_of_stream_is_terminal() {
    let mut d = EventFrameDecoder::new();
    assert!(matches!(d.on_event(StreamEvent::End), DecodeStep::Stop(StopReason::StreamTerminated)));
    assert!(matches!(d.on_event(StreamEvent::Cancelled), DecodeStep::Stop(StopReason::StreamTerminated)));
}

#[test]
fn trailers_and_read_errors_are_ignored() {
    let mut d = EventFrameDecoder::new();
    d.push_chunk(b"{\"a\"");
    assert!(matches!(d.on_event(StreamEvent::Trailers), DecodeStep::Lines(l) if l.is_empty()));
    assert!(matches!(d.on_event(StreamEvent::ReadError), DecodeStep::Lines(l) if l.is_empty()));
    assert_eq!(d.push_chunk(b":2}\n"), vec![b"{\"a\":2}".to_vec()]);
    assert_eq!(d.stopped(), None);
}

#[test]
fn empty_lines_are_emitted_as_empty() {
    assert_eq!(feed_all(&[b"\n\nx\n"]), vec![vec![], vec![], b"x".to_vec()]);
}
