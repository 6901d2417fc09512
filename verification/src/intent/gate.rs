use vstd::prelude::*;

use crate::deps::{lowercase, to_lowercase};
use crate::text::{contains_str, lemma_contains_extend, seq_contains};

verus! {

/// What a user message asks for.
#[derive(Debug, Clone, Copy, PartialEq, Eq, Hash, Structural)]
pub enum IntentType {
    Research,
    Implementation,
    Exploration,
    Evaluation,
    Fix,
    OpenEnded,
}

/// Where a message is sent: to an agent, to a tool, or back to the user
/// with a question.
#[derive(Debug, Clone)]
pub enum RouteTarget {
    Agent(String),
    Tool(String),
    Clarification(String),
}

/// The intent of an already lowercased message, by the first group of
/// keywords it contains: how / how to / what is (research); write / create /
/// add (implementation); find / search / analyse (exploration);
/// repair / modify / change (fix); otherwise open-ended.
pub open spec fn classify_lowered_spec(m: Seq<char>) -> IntentType {
    if seq_contains(m, "如何"@) || seq_contains(m, "怎么"@) || seq_contains(m, "什么是"@) {
        IntentType::Research
    } else if seq_contains(m, "写"@) || seq_contains(m, "创建"@) || seq_contains(m, "添加"@) {
        IntentType::Implementation
    } else if seq_contains(m, "查找"@) || seq_contains(m, "搜索"@) || seq_contains(m, "分析"@) {
        IntentType::Exploration
    } else if seq_contains(m, "修复"@) || seq_contains(m, "修改"@) || seq_contains(m, "改"@) {
        IntentType::Fix
    } else {
        IntentType::OpenEnded
    }
}

/// Keyword-based classification of user messages.
pub struct IntentGate;

impl IntentGate {
    /// The intent of `message`, matched after lowercasing it.
    pub fn classify(message: &str) -> (t: IntentType)
        ensures
            t == classify_lowered_spec(lowercase(message@)),
    {
        let lowered = to_lowercase(message);
        Self::classify_lowered(lowered.as_str())
    }

    /// The intent of a message that is already lowercased.
    pub fn classify_lowered(msg: &str) -> (t: IntentType)
        ensures
            t == classify_lowered_spec(msg@),
    {
        if contains_str(msg, "如何") || contains_str(msg, "怎么") || contains_str(msg, "什么是") {
            IntentType::Research
        } else if contains_str(msg, "写") || contains_str(msg, "创建") || contains_str(msg, "添加") {
            IntentType::Implementation
        } else if contains_str(msg, "查找") || contains_str(msg, "搜索") || contains_str(msg, "分析") {
            IntentType::Exploration
        } else if contains_str(msg, "修复") || contains_str(msg, "修改") || contains_str(msg, "改") {
            IntentType::Fix
        } else {
            IntentType::OpenEnded
        }
    }
}

/// Classification never answers `Evaluation`: no keyword group leads there.
pub proof fn lemma_never_evaluation(m: Seq<char>)
    ensures
        classify_lowered_spec(m) != IntentType::Evaluation,
{
}

/// A lowercased message classed as research stays research whatever text is
/// added before or after it: research keywords are looked for first, and a
/// keyword of the message is still there in the longer text.
pub proof fn lemma_research_stays_research(m: Seq<char>, before: Seq<char>, after: Seq<char>)
    requires
        classify_lowered_spec(m) == IntentType::Research,
    ensures
        classify_lowered_spec(before + m + after) == IntentType::Research,
{
    if seq_contains(m, "如何"@) {
        lemma_contains_extend(m, "如何"@, before, after);
    } else if seq_contains(m, "怎么"@) {
        lemma_contains_extend(m, "怎么"@, before, after);
    } else {
        lemma_contains_extend(m, "什么是"@, before, after);
    }
}

/// A lowercased message is classed research exactly when one of the
/// research keywords (how, how to, what is) occurs somewhere in it.
pub proof fn lemma_research_iff(m: Seq<char>)
    ensures
        (classify_lowered_spec(m) == IntentType::Research) <==> (seq_contains(m, "如何"@)
            || seq_contains(m, "怎么"@) || seq_contains(m, "什么是"@)),
{
}

/// A lowercased message is classed implementation exactly when it has no
/// research keyword and one of the keywords write, create, add occurs
/// somewhere in it.
pub proof fn lemma_implementation_iff(m: Seq<char>)
    ensures
        (classify_lowered_spec(m) == IntentType::Implementation) <==> (!(seq_contains(m, "如何"@)
            || seq_contains(m, "怎么"@) || seq_contains(m, "什么是"@)) && (seq_contains(m, "写"@)
            || seq_contains(m, "创建"@) || seq_contains(m, "添加"@))),
{
}

/// A lowercased message is classed exploration exactly when it has no
/// research or implementation keyword and one of the keywords find, search,
/// analyse occurs somewhere in it.
pub proof fn lemma_exploration_iff(m: Seq<char>)
    ensures
        (classify_lowered_spec(m) == IntentType::Exploration) <==> (!(seq_contains(m, "如何"@)
            || seq_contains(m, "怎么"@) || seq_contains(m, "什么是"@)) && !(seq_contains(m, "写"@)
            || seq_contains(m, "创建"@) || seq_contains(m, "添加"@)) && (seq_contains(m, "查找"@)
            || seq_contains(m, "搜索"@) || seq_contains(m, "分析"@))),
{
}

/// A lowercased message is classed fix exactly when it has no keyword of an
/// earlier group and one of the keywords repair, modify, change occurs
/// somewhere in it.
pub proof fn lemma_fix_iff(m: Seq<char>)
    ensures
        (classify_lowered_spec(m) == IntentType::Fix) <==> (!(seq_contains(m, "如何"@)
            || seq_contains(m, "怎么"@) || seq_contains(m, "什么是"@)) && !(seq_contains(m, "写"@)
            || seq_contains(m, "创建"@) || seq_contains(m, "添加"@)) && !(seq_contains(m, "查找"@)
            || seq_contains(m, "搜索"@) || seq_contains(m, "分析"@)) && (seq_contains(m, "修复"@)
            || seq_contains(m, "修改"@) || seq_contains(m, "改"@))),
{
}

/// A lowercased message is open-ended exactly when no keyword of any group
/// occurs in it.
pub proof fn lemma_open_ended_iff(m: Seq<char>)
    ensures
        (classify_lowered_spec(m) == IntentType::OpenEnded) <==> (!(seq_contains(m, "如何"@)
            || seq_contains(m, "怎么"@) || seq_contains(m, "什么是"@)) && !(seq_contains(m, "写"@)
            || seq_contains(m, "创建"@) || seq_contains(m, "添加"@)) && !(seq_contains(m, "查找"@)
            || seq_contains(m, "搜索"@) || seq_contains(m, "分析"@)) && !(seq_contains(m, "修复"@)
            || seq_contains(m, "修改"@) || seq_contains(m, "改"@))),
{
}

/// A fix keyword found at any position `i` of a lowercased message with no
/// keyword of an earlier group makes the message a fix, wherever `i` is.
pub proof fn lemma_fix_keyword_anywhere(m: Seq<char>, keyword: Seq<char>, i: int)
    requires
        keyword == "修复"@ || keyword == "修改"@ || keyword == "改"@,
        0 <= i,
        i + keyword.len() <= m.len(),
        m.subrange(i, i + keyword.len()) == keyword,
        !(seq_contains(m, "如何"@) || seq_contains(m, "怎么"@) || seq_contains(m, "什么是"@)),
        !(seq_contains(m, "写"@) || seq_contains(m, "创建"@) || seq_contains(m, "添加"@)),
        !(seq_contains(m, "查找"@) || seq_contains(m, "搜索"@) || seq_contains(m, "分析"@)),
    ensures
        classify_lowered_spec(m) == IntentType::Fix,
{
    assert(seq_contains(m, keyword));
}

} // verus!
