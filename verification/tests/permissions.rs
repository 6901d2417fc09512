use opennovel_sdk_core::permission::{
    Permission, PermissionCheckResult, PermissionChecker, PermissionMatrix, PermissionScope,
    PermissionSet,
};

const ALL: [Permission; 11] = [
    Permission::ReadKnowledge,
    Permission::WriteKnowledge,
    Permission::CreateAnnotation,
    Permission::ModifyAnnotation,
    Permission::LockAgent,
    Permission::UnlockAgent,
    Permission::Intervene,
    Permission::ModifyOutline,
    Permission::WriteContent,
    Permission::RunAnalysis,
    Permission::SyncData,
];

#[test]
fn empty_set_contains_nothing() {
    let s = PermissionSet::new();
    for p in ALL {
        assert!(!s.contains(p));
    }
}

#[test]
fn add_then_contains_only_that() {
    for p in ALL {
        let mut s = PermissionSet::new();
        s.add(p);
        for q in ALL {
            assert_eq!(s.contains(q), p == q);
        }
    }
}

#[test]
fn add_is_idempotent() {
    let mut s = PermissionSet::new();
    s.add(Permission::SyncData);
    s.add(Permission::SyncData);
    s.add(Permission::Intervene);
    assert!(s.contains(Permission::SyncData));
    assert!(s.contains(Permission::Intervene));
    assert!(!s.contains(Permission::LockAgent));
}

#[test]
fn new_matrix_grants_nothing() {
    let m = PermissionMatrix::new();
    assert!(!m.check("tian-dao", Permission::Intervene));
    let d = PermissionMatrix::default();
    assert!(!d.check("", Permission::ReadKnowledge));
}

#[test]
fn grant_then_check() {
    let mut m = PermissionMatrix::new();
    m.grant("writer", Permission::WriteContent);
    assert!(m.check("writer", Permission::WriteContent));
    assert!(!m.check("writer", Permission::ModifyOutline));
    assert!(!m.check("observer", Permission::WriteContent));
}

#[test]
fn grants_accumulate_per_role() {
    let mut m = PermissionMatrix::new();
    m.grant("天道", Permission::Intervene);
    m.grant("天道", Permission::ModifyOutline);
    m.grant("writer", Permission::WriteContent);
    m.grant("天道", Permission::Intervene);
    assert!(m.check("天道", Permission::Intervene));
    assert!(m.check("天道", Permission::ModifyOutline));
    assert!(!m.check("天道", Permission::WriteContent));
    assert!(m.check("writer", Permission::WriteContent));
    assert!(!m.check("writer", Permission::Intervene));
}

#[test]
fn checker_allows_everything() {
    assert!(PermissionChecker::check(&PermissionScope::Global, "write"));
    assert!(PermissionChecker::check(&PermissionScope::Book("b1".to_string()), "read"));
    assert!(PermissionChecker::check(&PermissionScope::Chapter("c1".to_string()), ""));
    let r = PermissionCheckResult { allowed: false, reason: Some("no".to_string()) };
    assert!(!r.allowed);
}

#[test]
fn matrix_clone_is_independent() {
    let mut m = PermissionMatrix::new();
    m.grant("a", Permission::SyncData);
    let c = m.clone();
    m.grant("a", Permission::LockAgent);
    assert!(c.check("a", Permission::SyncData));
    assert!(!c.check("a", Permission::LockAgent));
    assert!(m.check("a", Permission::LockAgent));
    assert!(!format!("{:?}", c).is_empty());
}
