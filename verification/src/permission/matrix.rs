use vstd::prelude::*;

use super::types::{Permission, PermissionSet};

verus! {

/// Whether `role` holds `permission` in the matrix `m`.
pub open spec fn granted(m: Map<Seq<char>, Set<Permission>>, role: Seq<char>, permission: Permission) -> bool {
    m.contains_key(role) && m[role].contains(permission)
}

/// The matrix `m` after `role` is granted `permission`.
pub open spec fn with_grant(
    m: Map<Seq<char>, Set<Permission>>,
    role: Seq<char>,
    permission: Permission,
) -> Map<Seq<char>, Set<Permission>> {
    let held = if m.contains_key(role) {
        m[role]
    } else {
        Set::empty()
    };
    m.insert(role, held.insert(permission))
}

/// One role of the matrix and the permissions it holds.
#[derive(Debug, Clone)]
pub struct RoleGrant {
    pub role: String,
    pub permissions: PermissionSet,
}

/// The role `k` has an entry in `entries`.
pub open spec fn has_role(entries: Seq<RoleGrant>, k: Seq<char>) -> bool {
    exists|i: int| 0 <= i < entries.len() && #[trigger] entries[i].role@ == k
}

/// `i` is the position of the first entry of the role `k`.
pub open spec fn first_entry(entries: Seq<RoleGrant>, k: Seq<char>, i: int) -> bool {
    &&& 0 <= i < entries.len()
    &&& entries[i].role@ == k
    &&& forall|j: int| 0 <= j < i ==> #[trigger] entries[j].role@ != k
}

/// The matrix that the entries stand for: each role with an entry, and the
/// permissions of its first entry.
pub open spec fn grants_view(entries: Seq<RoleGrant>) -> Map<Seq<char>, Set<Permission>> {
    Map::new(
        |k: Seq<char>| has_role(entries, k),
        |k: Seq<char>| entries[choose|i: int| first_entry(entries, k, i)].permissions@,
    )
}

/// A role with an entry has a first one.
proof fn lemma_first_exists(entries: Seq<RoleGrant>, k: Seq<char>)
    requires
        has_role(entries, k),
    ensures
        exists|i: int| first_entry(entries, k, i),
    decreases entries.len(),
{
    let p = entries.drop_last();
    if has_role(p, k) {
        lemma_first_exists(p, k);
        let i = choose|i: int| first_entry(p, k, i);
        assert(p[i] == entries[i]);
        assert forall|j: int| 0 <= j < i implies #[trigger] entries[j].role@ != k by {
            assert(p[j] == entries[j]);
        }
        assert(first_entry(entries, k, i));
    } else {
        let i = choose|i: int| 0 <= i < entries.len() && #[trigger] entries[i].role@ == k;
        assert forall|j: int| 0 <= j < entries.len() - 1 implies #[trigger] entries[j].role@ != k by {
            assert(p[j] == entries[j]);
        }
        assert(first_entry(entries, k, entries.len() - 1));
    }
}

/// What the matrix holds for the role of a first entry is that entry's set.
proof fn lemma_view_at(entries: Seq<RoleGrant>, i: int)
    requires
        first_entry(entries, entries[i].role@, i),
    ensures
        grants_view(entries).contains_key(entries[i].role@),
        grants_view(entries)[entries[i].role@] == entries[i].permissions@,
{
    let k = entries[i].role@;
    assert(has_role(entries, k));
    let j = choose|j: int| first_entry(entries, k, j);
    if j < i {
        assert(entries[j].role@ != k);
    } else if i < j {
        assert(entries[i].role@ != k);
    }
}

/// The position of `role` in `entries`, if it has an entry.
fn find_role(entries: &Vec<RoleGrant>, role: &String) -> (r: Option<usize>)
    ensures
        r matches Some(i) ==> first_entry(entries@, role@, i as int),
        r is None ==> !has_role(entries@, role@),
{
    let mut i: usize = 0;
    while i < entries.len()
        invariant
            i <= entries@.len(),
            forall|j: int| 0 <= j < i ==> entries@[j].role@ != role@,
        decreases entries@.len() - i,
    {
        if entries[i].role == *role {
            return Some(i);
        }
        i = i + 1;
    }
    None
}

/// The permissions of each role, by role name.
#[derive(Debug, Clone)]
pub struct PermissionMatrix {
    entries: Vec<RoleGrant>,
}

impl View for PermissionMatrix {
    type V = Map<Seq<char>, Set<Permission>>;

    /// For each role that has been granted anything, the set it holds.
    closed spec fn view(&self) -> Map<Seq<char>, Set<Permission>> {
        grants_view(self.entries@)
    }
}

impl PermissionMatrix {
    /// A matrix in which no role holds anything.
    pub fn new() -> (m: Self)
        ensures
            m@ == Map::<Seq<char>, Set<Permission>>::empty(),
    {
        let m = PermissionMatrix { entries: Vec::new() };
        assert(m@ =~= Map::<Seq<char>, Set<Permission>>::empty());
        m
    }

    /// Whether `role` holds `permission`.
    pub fn check(&self, role: &str, permission: Permission) -> (r: bool)
        ensures
            r == granted(self@, role@, permission),
    {
        let key = String::from_str(role);
        match find_role(&self.entries, &key) {
            Some(i) => {
                proof {
                    lemma_view_at(self.entries@, i as int);
                }
                self.entries[i].permissions.contains(permission)
            },
            None => false,
        }
    }

    /// Grants `permission` to `role`, keeping what it held before.
    pub fn grant(&mut self, role: &str, permission: Permission)
        ensures
            final(self)@ == with_grant(old(self)@, role@, permission),
    {
        let key = String::from_str(role);
        let mut entries: Vec<RoleGrant> = Vec::new();
        std::mem::swap(&mut entries, &mut self.entries);
        let ghost before = entries@;
        let ghost old_view = grants_view(before);
        match find_role(&entries, &key) {
            Some(i) => {
                let mut set = entries[i].permissions;
                set.add(permission);
                let name = entries[i].role.clone();
                let ghost g = RoleGrant { role: name, permissions: set };
                entries.set(i, RoleGrant { role: name, permissions: set });
                proof {
                    let after = entries@;
                    assert(after == before.update(i as int, g));
                    assert(first_entry(before, role@, i as int));
                    assert(first_entry(after, role@, i as int));
                    lemma_view_at(before, i as int);
                    lemma_view_at(after, i as int);
                    assert forall|k: Seq<char>| #[trigger] grants_view(after).contains_key(k)
                        == with_grant(old_view, role@, permission).contains_key(k) by {
                        if has_role(after, k) {
                            let j = choose|j: int| 0 <= j < after.len() && #[trigger] after[j].role@ == k;
                            assert(before[j].role@ == k);
                        }
                        if has_role(before, k) {
                            let j = choose|j: int| 0 <= j < before.len() && #[trigger] before[j].role@ == k;
                            assert(after[j].role@ == k);
                        }
                    }
                    assert forall|k: Seq<char>| grants_view(after).contains_key(k) implies #[trigger] grants_view(
                        after,
                    )[k] == with_grant(old_view, role@, permission)[k] by {
                        if k != role@ {
                            lemma_first_exists(after, k);
                            let j = choose|j: int| first_entry(after, k, j);
                            assert(j != i);
                            assert(first_entry(before, k, j)) by {
                                assert forall|t: int| 0 <= t < j implies #[trigger] before[t].role@ != k by {
                                    if t != i {
                                        assert(after[t] == before[t]);
                                    }
                                }
                            }
                            lemma_view_at(after, j);
                            lemma_view_at(before, j);
                        }
                    }
                    assert(grants_view(after) =~= with_grant(old_view, role@, permission));
                }
            },
            None => {
                let mut set = PermissionSet::new();
                set.add(permission);
                let ghost g = RoleGrant { role: key, permissions: set };
                entries.push(RoleGrant { role: key, permissions: set });
                proof {
                    let after = entries@;
                    let n = before.len() as int;
                    assert(after == before.push(g));
                    assert(first_entry(after, role@, n)) by {
                        assert forall|t: int| 0 <= t < n implies #[trigger] after[t].role@ != role@ by {
                            assert(after[t] == before[t]);
                        }
                    }
                    lemma_view_at(after, n);
                    assert forall|k: Seq<char>| #[trigger] grants_view(after).contains_key(k)
                        == with_grant(old_view, role@, permission).contains_key(k) by {
                        if has_role(after, k) && k != role@ {
                            let j = choose|j: int| 0 <= j < after.len() && #[trigger] after[j].role@ == k;
                            assert(before[j].role@ == k);
                        }
                        if has_role(before, k) {
                            let j = choose|j: int| 0 <= j < before.len() && #[trigger] before[j].role@ == k;
                            assert(after[j].role@ == k);
                        }
                    }
                    assert forall|k: Seq<char>| grants_view(after).contains_key(k) implies #[trigger] grants_view(
                        after,
                    )[k] == with_grant(old_view, role@, permission)[k] by {
                        if k != role@ {
                            lemma_first_exists(after, k);
                            let j = choose|j: int| first_entry(after, k, j);
                            assert(j < n);
                            assert(first_entry(before, k, j)) by {
                                assert forall|t: int| 0 <= t < j implies #[trigger] before[t].role@ != k by {
                                    assert(after[t] == before[t]);
                                }
                            }
                            lemma_view_at(after, j);
                            lemma_view_at(before, j);
                        } else {
                            assert(set@ =~= Set::<Permission>::empty().insert(permission));
                        }
                    }
                    assert(grants_view(after) =~= with_grant(old_view, role@, permission));
                }
            },
        }
        self.entries = entries;
    }
}

/// A role holds a permission after a grant exactly when the grant was of
/// that permission to that role or the role held it before: a grant gives
/// what it names and changes nothing else.
pub proof fn lemma_grant_then_check(
    m: Map<Seq<char>, Set<Permission>>,
    role: Seq<char>,
    permission: Permission,
    other_role: Seq<char>,
    other_permission: Permission,
)
    ensures
        granted(with_grant(m, role, permission), other_role, other_permission) == ((other_role
            == role && other_permission == permission) || granted(m, other_role, other_permission)),
{
}

/// Granting a permission a role already holds changes nothing.
pub proof fn lemma_grant_idempotent(
    m: Map<Seq<char>, Set<Permission>>,
    role: Seq<char>,
    permission: Permission,
)
    requires
        granted(m, role, permission),
    ensures
        with_grant(m, role, permission) == m,
{
    assert(m[role].insert(permission) =~= m[role]);
    assert(with_grant(m, role, permission) =~= m);
}

/// A new matrix grants nothing.
pub proof fn lemma_new_grants_nothing(role: Seq<char>, permission: Permission)
    ensures
        !granted(Map::<Seq<char>, Set<Permission>>::empty(), role, permission),
{
}

impl Default for PermissionMatrix {
    fn default() -> (m: Self)
        ensures
            m@ == Map::<Seq<char>, Set<Permission>>::empty(),
    {
        Self::new()
    }
}

} // verus!
