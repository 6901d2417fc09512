use opennovel_sdk_core::intent::router::RouteTarget as RouterTarget;
use opennovel_sdk_core::intent::{IntentGate, IntentPatternLibrary, IntentRouter, IntentType};
use opennovel_sdk_core::text::contains_str;

#[test]
fn research_keywords() {
    assert_eq!(IntentGate::classify("如何写好开头"), IntentType::Research);
    assert_eq!(IntentGate::classify("这个怎么改"), IntentType::Research);
    assert_eq!(IntentGate::classify("什么是伏笔"), IntentType::Research);
}

#[test]
fn implementation_keywords() {
    assert_eq!(IntentGate::classify("写第三章"), IntentType::Implementation);
    assert_eq!(IntentGate::classify("创建人物"), IntentType::Implementation);
    assert_eq!(IntentGate::classify("添加设定"), IntentType::Implementation);
}

#[test]
fn exploration_keywords() {
    assert_eq!(IntentGate::classify("查找主角"), IntentType::Exploration);
    assert_eq!(IntentGate::classify("搜索地图"), IntentType::Exploration);
    assert_eq!(IntentGate::classify("分析节奏"), IntentType::Exploration);
}

#[test]
fn fix_keywords() {
    assert_eq!(IntentGate::classify("修复漏洞"), IntentType::Fix);
    assert_eq!(IntentGate::classify("修改结局"), IntentType::Fix);
    assert_eq!(IntentGate::classify("改一下"), IntentType::Fix);
}

#[test]
fn other_messages_are_open_ended() {
    assert_eq!(IntentGate::classify("hello"), IntentType::OpenEnded);
    assert_eq!(IntentGate::classify(""), IntentType::OpenEnded);
}

#[test]
fn earlier_groups_win() {
    assert_eq!(IntentGate::classify("如何修改"), IntentType::Research);
    assert_eq!(IntentGate::classify("分析后修复"), IntentType::Exploration);
    assert_eq!(IntentGate::classify("改写"), IntentType::Implementation);
}

#[test]
fn classify_lowered_matches_classify_on_lowercase_text() {
    assert_eq!(IntentGate::classify_lowered("如何"), IntentType::Research);
    assert_eq!(IntentGate::classify_lowered("abc"), IntentType::OpenEnded);
}

#[test]
fn contains_str_finds_substrings() {
    assert!(contains_str("abcdef", "cde"));
    assert!(contains_str("abc", ""));
    assert!(contains_str("abc", "abc"));
    assert!(!contains_str("abc", "abcd"));
    assert!(!contains_str("abc", "ac"));
    assert!(contains_str("天道推演", "推演"));
}

#[test]
fn router_sends_to_tian_dao() {
    assert!(matches!(IntentRouter::route("anything"), RouterTarget::Agent(a) if a == "tian-dao"));
}

#[test]
fn no_pattern_matches() {
    assert!(IntentPatternLibrary::match_pattern("如何写").is_none());
}

#[test]
fn research_stays_research_with_added_text() {
    assert_eq!(IntentGate::classify_lowered("修改前如何写"), IntentType::Research);
    assert_eq!(IntentGate::classify_lowered("写一段，再分析：什么是好开头？"), IntentType::Research);
    assert_eq!(IntentGate::classify("添加 ABC 怎么 XYZ"), IntentType::Research);
}
