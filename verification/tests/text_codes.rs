use opennovel_sdk_core::agent::AgentRole;
use opennovel_sdk_core::hooks::HookPoint;
use opennovel_sdk_core::text::{chars_of, strip_prefix_or_whole};

#[test]
fn chars_of_lists_characters() {
    assert_eq!(chars_of("a天b"), vec!['a', '天', 'b']);
    assert!(chars_of("").is_empty());
}

#[test]
fn strip_prefix_or_whole_cases() {
    assert_eq!(strip_prefix_or_whole("prefix-rest", "prefix-"), "rest");
    assert_eq!(strip_prefix_or_whole("prefix", "prefix"), "");
    assert_eq!(strip_prefix_or_whole("pre", "prefix"), "pre");
    assert_eq!(strip_prefix_or_whole("other", "prefix"), "other");
    assert_eq!(strip_prefix_or_whole("abc", ""), "abc");
}

#[test]
fn hook_point_codes_are_distinct() {
    let points = [
        HookPoint::BeforeUserMessage,
        HookPoint::AfterUserMessage,
        HookPoint::BeforeAssistantMessage,
        HookPoint::AfterAssistantMessage,
        HookPoint::BeforeToolCall,
        HookPoint::AfterToolResult,
        HookPoint::OnSessionStart,
        HookPoint::OnSessionEnd,
        HookPoint::OnAgentSwitch,
        HookPoint::OnPhaseChange,
        HookPoint::OnChapterComplete,
        HookPoint::OnConsistencyViolation,
        HookPoint::OnError,
        HookPoint::OnIdle,
    ];
    let codes: Vec<u8> = points.iter().map(|p| p.code_of()).collect();
    assert_eq!(codes, (0u8..14).collect::<Vec<u8>>());
}

#[test]
fn role_codes_are_distinct() {
    let roles = [
        AgentRole::Planner,
        AgentRole::TianDao,
        AgentRole::WorldGuardian,
        AgentRole::LiuHeping,
        AgentRole::Writer,
        AgentRole::Reviewer,
        AgentRole::Observer,
        AgentRole::Researcher,
    ];
    let codes: Vec<u8> = roles.iter().map(|r| r.code_of()).collect();
    assert_eq!(codes, (0u8..8).collect::<Vec<u8>>());
}
