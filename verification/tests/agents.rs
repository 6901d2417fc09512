use opennovel_sdk_core::agent::{
    agent_available_at, default_enabled, default_max_tokens, AgentError, AgentId, AgentRegistry,
    AgentRole, CreationStage,
};

#[test]
fn agent_id_round_trip_and_equality() {
    let a = AgentId::new("tian-dao");
    assert_eq!(a.as_str(), "tian-dao");
    assert_eq!(a, AgentId::new("tian-dao"));
    assert_ne!(a, AgentId::new("writer"));
    let f = AgentId::from("tian-dao");
    assert_eq!(f, a);
    assert_eq!(f.as_str(), "tian-dao");
}

#[test]
fn only_tian_dao_and_world_guardian_intervene() {
    let all = [
        AgentRole::Planner,
        AgentRole::TianDao,
        AgentRole::WorldGuardian,
        AgentRole::LiuHeping,
        AgentRole::Writer,
        AgentRole::Reviewer,
        AgentRole::Observer,
        AgentRole::Researcher,
    ];
    for r in all {
        assert_eq!(r.can_intervene(), r == AgentRole::TianDao || r == AgentRole::WorldGuardian);
    }
}

#[test]
fn availability_by_stage_list() {
    assert!(agent_available_at(&None, CreationStage::Publishing));
    let stages = Some(vec![CreationStage::Outline, CreationStage::Writing]);
    assert!(agent_available_at(&stages, CreationStage::Writing));
    assert!(!agent_available_at(&stages, CreationStage::Revision));
    assert!(!agent_available_at(&Some(vec![]), CreationStage::Outline));
}

#[test]
fn config_defaults() {
    assert_eq!(default_max_tokens(), 4096);
    assert!(default_enabled());
}

#[test]
fn agent_error_messages() {
    assert_eq!(AgentError::ProviderError("timeout".to_string()).message(), "Provider错误: timeout");
    assert_eq!(AgentError::PermissionDenied.message(), "权限不足");
    assert_eq!(AgentError::ProcessingFailed("x".to_string()).message(), "处理失败: x");
}

#[test]
fn empty_registry() {
    let r: AgentRegistry<&str> = AgentRegistry::new();
    assert_eq!(r.len(), 0);
    assert!(r.is_empty());
    assert!(r.get(&AgentId::new("a")).is_none());
    assert!(r.all().is_empty());
    assert!(r.get_by_role(AgentRole::Writer).is_empty());
    assert!(!r.is_agent_available(&AgentId::new("a"), true));
    assert!(r.get_available_agents(&[true, true]).is_empty());
}

#[test]
fn register_then_get() {
    let mut r: AgentRegistry<&str> = AgentRegistry::new();
    r.register(AgentId::new("writer"), AgentRole::Writer, "执笔");
    r.register(AgentId::new("td"), AgentRole::TianDao, "天道");
    assert_eq!(r.len(), 2);
    assert!(!r.is_empty());
    assert_eq!(r.get(&AgentId::new("writer")), Some(&"执笔"));
    assert_eq!(r.get(&AgentId::new("td")), Some(&"天道"));
    assert_eq!(r.all(), vec![&"执笔", &"天道"]);
    assert_eq!(r.get_by_role(AgentRole::TianDao), vec![&"天道"]);
    assert!(r.get_by_role(AgentRole::Planner).is_empty());
}

#[test]
fn re_register_replaces_and_indexes_again() {
    let mut r: AgentRegistry<u32> = AgentRegistry::new();
    r.register(AgentId::new("a"), AgentRole::Writer, 1);
    r.register(AgentId::new("a"), AgentRole::Writer, 2);
    assert_eq!(r.len(), 1);
    assert_eq!(r.get(&AgentId::new("a")), Some(&2));
    assert_eq!(r.all(), vec![&2]);
    assert_eq!(r.get_by_role(AgentRole::Writer), vec![&2, &2]);
}

#[test]
fn get_by_role_over_distinct_registrations() {
    let mut r: AgentRegistry<u32> = AgentRegistry::default();
    r.register(AgentId::new("w1"), AgentRole::Writer, 1);
    r.register(AgentId::new("p"), AgentRole::Planner, 2);
    r.register(AgentId::new("w2"), AgentRole::Writer, 3);
    r.register(AgentId::new("w3"), AgentRole::Writer, 4);
    assert_eq!(r.get_by_role(AgentRole::Writer), vec![&1, &3, &4]);
    assert_eq!(r.get_by_role(AgentRole::Planner), vec![&2]);
    assert!(r.get_by_role(AgentRole::TianDao).is_empty());
    assert_eq!(r.len(), 4);
}

#[test]
fn role_change_keeps_old_index_entry() {
    let mut r: AgentRegistry<u32> = AgentRegistry::new();
    r.register(AgentId::new("a"), AgentRole::Writer, 1);
    r.register(AgentId::new("a"), AgentRole::Reviewer, 2);
    assert_eq!(r.get_by_role(AgentRole::Writer), vec![&2]);
    assert_eq!(r.get_by_role(AgentRole::Reviewer), vec![&2]);
}

#[test]
fn availability_in_registry_follows_each_agents_answer() {
    let mut r: AgentRegistry<u32> = AgentRegistry::new();
    r.register(AgentId::new("all"), AgentRole::Observer, 1);
    r.register(AgentId::new("outline"), AgentRole::Planner, 2);
    r.register(AgentId::new("none"), AgentRole::Researcher, 3);
    let stages = |id: u32| match id {
        1 => None,
        2 => Some(vec![CreationStage::Outline]),
        _ => Some(vec![]),
    };
    let answers = |stage: CreationStage| -> Vec<bool> {
        r.all().into_iter().map(|a| agent_available_at(&stages(*a), stage)).collect()
    };
    assert_eq!(r.get_available_agents(&answers(CreationStage::Outline)), vec![&1, &2]);
    assert_eq!(r.get_available_agents(&answers(CreationStage::Writing)), vec![&1]);
    assert_eq!(r.get_available_agents(&[false, true]), vec![&2]);
    assert_eq!(r.get_available_agents(&[]), Vec::<&u32>::new());
    assert!(r.is_agent_available(&AgentId::new("outline"), true));
    assert!(!r.is_agent_available(&AgentId::new("outline"), false));
    assert!(!r.is_agent_available(&AgentId::new("missing"), true));
}
