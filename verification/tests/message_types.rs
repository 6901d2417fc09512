use opennovel_sdk_core::clock::Timestamp;
use opennovel_sdk_core::message::{AnnotationId, ChatMessage, MessageBuilder, MessageId, MessageSender};

fn is_uuid_layout(s: &str) -> bool {
    let c: Vec<char> = s.chars().collect();
    c.len() == 36
        && c[8] == '-'
        && c[13] == '-'
        && c[18] == '-'
        && c[23] == '-'
        && c[14] == '4'
        && matches!(c[19], '8' | '9' | 'a' | 'b')
        && c.iter().enumerate().all(|(i, ch)| {
            matches!(i, 8 | 13 | 18 | 23) || ch.is_ascii_digit() || ('a'..='f').contains(ch)
        })
}

#[test]
fn message_ids_are_uuids_and_differ() {
    let a = MessageId::new();
    let b = MessageId::default();
    assert!(is_uuid_layout(a.as_str()));
    assert!(is_uuid_layout(b.as_str()));
    assert_ne!(a, b);
    let n = AnnotationId::new();
    assert!(is_uuid_layout(n.as_str()));
}

#[test]
fn ids_read_back_from_text() {
    let m = MessageId::from("abc");
    assert_eq!(m.as_str(), "abc");
    assert_eq!(m, MessageId::from("abc"));
    let a = AnnotationId::from("n1");
    assert_eq!(a.as_str(), "n1");
}

#[test]
fn chat_message_constructors() {
    let u = ChatMessage::user("你好");
    assert!(matches!(u.sender, MessageSender::User));
    assert_eq!(u.content, "你好");
    assert!(u.annotations.is_empty());
    assert!(u.timestamp.nanos < 1_000_000_000);
    let a = ChatMessage::agent("writer", "text");
    assert!(matches!(&a.sender, MessageSender::Agent { id } if id == "writer"));
    assert_eq!(a.content, "text");
    assert!(a.timestamp.nanos < 1_000_000_000);
    let s = ChatMessage::system("sys");
    assert!(s.timestamp.nanos < 1_000_000_000);
    assert!(matches!(s.sender, MessageSender::System));
    assert!(is_uuid_layout(s.id.as_str()));
}

#[test]
fn builder_requires_sender() {
    let r = MessageBuilder::new().content("x").build();
    assert_eq!(r.err(), Some("Sender is required"));
}

#[test]
fn builder_requires_content() {
    let r = MessageBuilder::new().user().build();
    assert_eq!(r.err(), Some("Content is required"));
}

#[test]
fn builder_without_anything_reports_sender_first() {
    let r = MessageBuilder::default().build();
    assert_eq!(r.err(), Some("Sender is required"));
}

#[test]
fn builder_builds_with_given_timestamp() {
    let t = Timestamp { secs: 1_700_000_000, nanos: 5 };
    let m = MessageBuilder::new().agent("tian-dao").content("hello").timestamp(t).build().unwrap();
    assert!(matches!(&m.sender, MessageSender::Agent { id } if id == "tian-dao"));
    assert_eq!(m.content, "hello");
    assert_eq!(m.timestamp, t);
    assert!(m.annotations.is_empty());
}

#[test]
fn builder_stamps_now_without_timestamp() {
    let m = MessageBuilder::new().user().content("c").build().unwrap();
    assert!(m.timestamp.nanos < 1_000_000_000);
    assert!(m.timestamp.secs > 1_600_000_000);
}

#[test]
fn builder_last_sender_wins() {
    let m = MessageBuilder::new().user().system().content("c").build().unwrap();
    assert!(matches!(m.sender, MessageSender::System));
}
