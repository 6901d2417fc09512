use opennovel_sdk_core::message::stream::{MessageStream, StreamBuilder};
use opennovel_sdk_core::message::{SSEProtocol, StreamEvent};
use opennovel_sdk_core::text::{split_chunks, CHUNK_CHARS};

fn delta_text(e: &StreamEvent) -> Option<String> {
    match e {
        StreamEvent::ThinkingDelta { delta, .. } | StreamEvent::ContentDelta { delta, .. } => {
            Some(delta.clone())
        }
        _ => None,
    }
}

fn drain(mut s: MessageStream) -> Vec<StreamEvent> {
    let mut out = Vec::new();
    while let Some(e) = s.next_event() {
        out.push(e);
    }
    out
}

#[test]
fn split_chunks_cuts_into_fifty_character_pieces() {
    let text: String = "a".repeat(120);
    let pieces = split_chunks(&text);
    assert_eq!(pieces.len(), 3);
    assert_eq!(pieces[0].chars().count(), 50);
    assert_eq!(pieces[1].chars().count(), 50);
    assert_eq!(pieces[2].chars().count(), 20);
    assert_eq!(pieces.concat(), text);
    assert_eq!(CHUNK_CHARS, 50);
}

#[test]
fn split_chunks_counts_characters_not_bytes() {
    let text: String = "天道".repeat(30);
    let pieces = split_chunks(&text);
    assert_eq!(pieces.len(), 2);
    assert_eq!(pieces[0].chars().count(), 50);
    assert_eq!(pieces[1].chars().count(), 10);
    assert_eq!(pieces.concat(), text);
}

#[test]
fn split_chunks_of_empty_text_is_empty() {
    assert!(split_chunks("").is_empty());
    let exact = "x".repeat(50);
    assert_eq!(split_chunks(&exact), vec![exact.clone()]);
}

#[test]
fn thinking_emits_start_deltas_end() {
    let text = "b".repeat(75);
    let events = drain(StreamBuilder::new().thinking("tian-dao", &text).build());
    assert_eq!(events.len(), 4);
    assert!(matches!(&events[0], StreamEvent::ThinkingStart { agent } if agent == "tian-dao"));
    assert!(matches!(&events[1], StreamEvent::ThinkingDelta { agent, delta } if agent == "tian-dao" && delta.len() == 50));
    assert!(matches!(&events[2], StreamEvent::ThinkingDelta { delta, .. } if delta.len() == 25));
    assert!(matches!(&events[3], StreamEvent::ThinkingEnd { agent } if agent == "tian-dao"));
    let joined: String = events.iter().filter_map(delta_text).collect();
    assert_eq!(joined, text);
}

#[test]
fn content_with_empty_text_has_no_delta() {
    let events = drain(StreamBuilder::new().content("writer", "").build());
    assert_eq!(events.len(), 2);
    assert!(matches!(&events[0], StreamEvent::ContentStart { agent } if agent == "writer"));
    assert!(matches!(&events[1], StreamEvent::ContentEnd { agent } if agent == "writer"));
}

#[test]
fn builder_keeps_order_of_sections() {
    let events = drain(
        StreamBuilder::default()
            .thinking("a", "think")
            .content("a", "say")
            .complete()
            .build(),
    );
    assert_eq!(events.len(), 7);
    assert!(matches!(&events[0], StreamEvent::ThinkingStart { .. }));
    assert!(matches!(&events[1], StreamEvent::ThinkingDelta { delta, .. } if delta == "think"));
    assert!(matches!(&events[2], StreamEvent::ThinkingEnd { .. }));
    assert!(matches!(&events[3], StreamEvent::ContentStart { .. }));
    assert!(matches!(&events[4], StreamEvent::ContentDelta { delta, .. } if delta == "say"));
    assert!(matches!(&events[5], StreamEvent::ContentEnd { .. }));
    assert!(matches!(&events[6], StreamEvent::Complete));
}

#[test]
fn stream_hands_out_events_in_order_then_none() {
    let mut s = MessageStream::new(vec![StreamEvent::complete(), StreamEvent::error("x", "boom")]);
    assert!(matches!(s.next_event(), Some(StreamEvent::Complete)));
    assert!(matches!(s.next_event(), Some(StreamEvent::Error { agent, message }) if agent == "x" && message == "boom"));
    assert!(s.next_event().is_none());
    assert!(s.next_event().is_none());
}

#[test]
fn stream_from_single_event() {
    let mut s = MessageStream::from_single(StreamEvent::thinking_end("p"));
    assert!(matches!(s.next_event(), Some(StreamEvent::ThinkingEnd { agent }) if agent == "p"));
    assert!(s.next_event().is_none());
}

#[test]
fn event_constructors_fill_fields() {
    assert!(matches!(StreamEvent::thinking_start("a"), StreamEvent::ThinkingStart { agent } if agent == "a"));
    assert!(matches!(StreamEvent::thinking_delta("a", "d"), StreamEvent::ThinkingDelta { agent, delta } if agent == "a" && delta == "d"));
    assert!(matches!(StreamEvent::content_start("a"), StreamEvent::ContentStart { agent } if agent == "a"));
    assert!(matches!(StreamEvent::content_delta("a", "d"), StreamEvent::ContentDelta { agent, delta } if agent == "a" && delta == "d"));
    assert!(matches!(StreamEvent::content_end("a"), StreamEvent::ContentEnd { agent } if agent == "a"));
    assert!(matches!(StreamEvent::complete(), StreamEvent::Complete));
}

#[test]
fn duplicate_copies_every_field() {
    let e = StreamEvent::content_delta("w", "text");
    let d = e.duplicate();
    assert!(matches!(d, StreamEvent::ContentDelta { agent, delta } if agent == "w" && delta == "text"));
}

#[test]
fn sse_frame_wraps_json() {
    assert_eq!(SSEProtocol::frame("{\"type\":\"complete\"}"), "data: {\"type\":\"complete\"}\n\n");
}

#[test]
fn sse_payload_strips_data_prefix() {
    assert_eq!(SSEProtocol::payload("data: {}"), "{}");
    assert_eq!(SSEProtocol::payload("{}"), "{}");
    assert_eq!(SSEProtocol::payload("data:{}"), "data:{}");
    assert_eq!(SSEProtocol::payload(""), "");
}

#[test]
fn sse_payload_of_frame_is_json_and_blank_line() {
    let j = "{\"a\":1}";
    let framed = SSEProtocol::frame(j);
    assert_eq!(SSEProtocol::payload(&framed), format!("{}\n\n", j));
}

#[test]
fn polling_history_yields_each_event_once_then_none_forever() {
    let events = vec![
        StreamEvent::thinking_start("a"),
        StreamEvent::content_delta("a", "x"),
        StreamEvent::complete(),
    ];
    let mut s = MessageStream::new(events);
    assert!(matches!(s.next_event(), Some(StreamEvent::ThinkingStart { .. })));
    assert!(matches!(s.next_event(), Some(StreamEvent::ContentDelta { .. })));
    assert!(matches!(s.next_event(), Some(StreamEvent::Complete)));
    for _ in 0..5 {
        assert!(s.next_event().is_none());
    }
}
