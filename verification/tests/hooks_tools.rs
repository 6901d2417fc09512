use opennovel_sdk_core::hooks::{HookContext, HookDefinition, HookPoint, HookRegistry, HookResult};
use opennovel_sdk_core::tools::{ToolDefinition, ToolRegistry, ToolResult};

fn hook(name: &str, point: HookPoint, priority: u32) -> HookDefinition {
    let mut d = HookDefinition::new(name, point);
    d.priority = priority;
    d
}

fn names(r: &HookRegistry, p: HookPoint) -> Vec<String> {
    r.get_hooks_at_point(p).iter().map(|h| h.name.clone()).collect()
}

#[test]
fn hook_definition_defaults() {
    let d = HookDefinition::new("lock", HookPoint::BeforeToolCall);
    assert_eq!(d.name, "lock");
    assert_eq!(d.point, HookPoint::BeforeToolCall);
    assert_eq!(d.priority, 100);
    assert!(d.enabled);
}

#[test]
fn hook_results() {
    let c = HookResult::cont();
    assert!(c.continue_execution);
    assert!(c.modified_message.is_none());
    let s = HookResult::stop();
    assert!(!s.continue_execution);
    assert!(s.modified_message.is_none());
}

#[test]
fn hook_context_starts_empty() {
    let c = HookContext::new("s".to_string(), "b".to_string(), "a".to_string());
    assert_eq!(c.session_id, "s");
    assert_eq!(c.book_id, "b");
    assert_eq!(c.agent_name, "a");
    assert!(c.message.is_none());
    assert!(c.data.is_empty());
}

#[test]
fn new_registry_has_no_hooks() {
    let r = HookRegistry::new();
    assert!(r.get_hooks_at_point(HookPoint::OnIdle).is_empty());
    let d = HookRegistry::default();
    assert!(d.get_hooks_at_point(HookPoint::OnError).is_empty());
}

#[test]
fn hooks_run_in_priority_order() {
    let mut r = HookRegistry::new();
    r.register(hook("late", HookPoint::OnChapterComplete, 100));
    r.register(hook("early", HookPoint::OnChapterComplete, 10));
    r.register(hook("middle", HookPoint::OnChapterComplete, 50));
    assert_eq!(names(&r, HookPoint::OnChapterComplete), vec!["early", "middle", "late"]);
}

#[test]
fn equal_priorities_keep_registration_order() {
    let mut r = HookRegistry::new();
    r.register(hook("first", HookPoint::OnIdle, 30));
    r.register(hook("second", HookPoint::OnIdle, 30));
    r.register(hook("zero", HookPoint::OnIdle, 0));
    r.register(hook("third", HookPoint::OnIdle, 30));
    assert_eq!(names(&r, HookPoint::OnIdle), vec!["zero", "first", "second", "third"]);
}

#[test]
fn register_touches_only_its_point() {
    let mut r = HookRegistry::new();
    r.register(hook("a", HookPoint::OnError, 1));
    r.register(hook("b", HookPoint::OnSessionStart, 1));
    assert_eq!(names(&r, HookPoint::OnError), vec!["a"]);
    assert_eq!(names(&r, HookPoint::OnSessionStart), vec!["b"]);
    assert!(names(&r, HookPoint::OnSessionEnd).is_empty());
}

#[test]
fn execute_continues() {
    let mut r = HookRegistry::new();
    r.register(hook("a", HookPoint::OnError, 1));
    let c = HookContext::new("s".to_string(), "b".to_string(), "a".to_string());
    let res = r.execute(HookPoint::OnError, c);
    assert!(res.continue_execution);
    assert!(res.modified_message.is_none());
}

fn tool(name: &str, description: &str) -> ToolDefinition {
    ToolDefinition {
        name: name.to_string(),
        display_name: name.to_uppercase(),
        description: description.to_string(),
        required_permissions: vec![],
    }
}

#[test]
fn tool_register_then_get() {
    let mut r = ToolRegistry::new();
    assert!(r.get("search").is_none());
    r.register(tool("search", "find things"));
    assert_eq!(r.get("search").map(|t| t.description.clone()), Some("find things".to_string()));
    assert!(r.get("write").is_none());
}

#[test]
fn tool_register_replaces_same_name() {
    let mut r = ToolRegistry::default();
    r.register(tool("search", "old"));
    r.register(tool("search", "new"));
    assert_eq!(r.get("search").unwrap().description, "new");
}

#[test]
fn tool_execute_succeeds_for_registered_tool() {
    let mut r = ToolRegistry::new();
    r.register(tool("search", "find things"));
    let res = r.execute("search", serde_json::Value::Null);
    assert!(res.success);
    assert_eq!(res.data.as_deref(), Some("Tool executed"));
    assert!(res.error.is_none());
    let s = ToolResult::success("ok");
    assert_eq!(s.data.as_deref(), Some("ok"));
}

#[test]
fn tool_execute_unknown_tool_fails() {
    let mut r = ToolRegistry::new();
    r.register(tool("search", "find things"));
    let res = r.execute("write", serde_json::Value::Null);
    assert!(!res.success);
    assert!(res.data.is_none());
    assert_eq!(res.error.as_deref(), Some("TOOL_NOT_FOUND"));
    let f = ToolResult::failure("X");
    assert!(!f.success);
    assert_eq!(f.error.as_deref(), Some("X"));
}
