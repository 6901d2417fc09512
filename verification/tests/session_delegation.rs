use opennovel_sdk_core::clock::Timestamp;
use opennovel_sdk_core::delegation::{
    DelegationProtocol, DelegationRequest, ExpectedOutcome,
};
use opennovel_sdk_core::provider::{ChatMessage, ChatRequest, ChatResponse, MessageRole, ProviderError};
use opennovel_sdk_core::session::SessionContext;

#[test]
fn new_session_is_empty_and_fresh() {
    let s = SessionContext::new("s1");
    assert_eq!(s.session_id, "s1");
    assert!(s.book_id.is_none());
    assert!(s.chapter_id.is_none());
    assert!(s.user_preferences.is_empty());
    assert_eq!(s.created_at, s.last_active);
    assert!(s.created_at.secs > 1_600_000_000);
    assert!(s.created_at.nanos < 1_000_000_000);
}

#[test]
fn with_book_and_chapter() {
    let s = SessionContext::new("s1").with_book("b").with_chapter("c");
    assert_eq!(s.session_id, "s1");
    assert_eq!(s.book_id.as_deref(), Some("b"));
    assert_eq!(s.chapter_id.as_deref(), Some("c"));
    let t = s.with_book("b2");
    assert_eq!(t.book_id.as_deref(), Some("b2"));
    assert_eq!(t.chapter_id.as_deref(), Some("c"));
}

#[test]
fn timestamps_are_ordered_values() {
    let a = Timestamp::now();
    assert!(a.nanos < 1_000_000_000);
    assert!(a.secs > 1_600_000_000);
}

fn request() -> DelegationRequest {
    DelegationRequest {
        task: "write".to_string(),
        expected_outcome: ExpectedOutcome { deliverables: vec![], success_criteria: vec![] },
        required_tools: vec![],
        must_do: vec![],
        must_not_do: vec![],
    }
}

#[test]
fn delegation_succeeds_in_fresh_session() {
    let p = DelegationProtocol::new();
    let a = p.delegate(request());
    let b = DelegationProtocol::default().delegate(request());
    assert!(a.success);
    assert!(a.output.is_none());
    assert_eq!(a.session_id.chars().count(), 36);
    assert_eq!(a.session_id.chars().nth(8), Some('-'));
    assert_ne!(a.session_id, b.session_id);
}

#[test]
fn provider_types_hold_their_fields() {
    let req = ChatRequest {
        messages: vec![ChatMessage { role: MessageRole::User, content: "hi".to_string() }],
        model: None,
    };
    assert_eq!(req.messages.len(), 1);
    let resp = ChatResponse { content: "ok".to_string(), model: "m".to_string() };
    assert_eq!(resp.model, "m");
    let e = ProviderError("down".to_string());
    assert_eq!(e.0, "down");
}
