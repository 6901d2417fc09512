use vstd::prelude::*;

verus! {

/// An operation that an agent may be allowed to perform.
#[derive(Debug, Clone, Copy, PartialEq, Eq, Hash, Structural)]
pub enum Permission {
    ReadKnowledge,
    WriteKnowledge,
    CreateAnnotation,
    ModifyAnnotation,
    LockAgent,
    UnlockAgent,
    Intervene,
    ModifyOutline,
    WriteContent,
    RunAnalysis,
    SyncData,
}

impl Permission {
    /// The position of the permission's flag in a `PermissionSet`.
    pub open spec fn flag_index(self) -> u16 {
        match self {
            Permission::ReadKnowledge => 0,
            Permission::WriteKnowledge => 1,
            Permission::CreateAnnotation => 2,
            Permission::ModifyAnnotation => 3,
            Permission::LockAgent => 4,
            Permission::UnlockAgent => 5,
            Permission::Intervene => 6,
            Permission::ModifyOutline => 7,
            Permission::WriteContent => 8,
            Permission::RunAnalysis => 9,
            Permission::SyncData => 10,
        }
    }

    /// The permission's flag: a word with only its own bit set.
    pub open spec fn flag(self) -> u16 {
        1u16 << self.flag_index()
    }

    fn flag_exec(self) -> (f: u16)
        ensures
            f == self.flag(),
    {
        let i: u16 = match self {
            Permission::ReadKnowledge => 0,
            Permission::WriteKnowledge => 1,
            Permission::CreateAnnotation => 2,
            Permission::ModifyAnnotation => 3,
            Permission::LockAgent => 4,
            Permission::UnlockAgent => 5,
            Permission::Intervene => 6,
            Permission::ModifyOutline => 7,
            Permission::WriteContent => 8,
            Permission::RunAnalysis => 9,
            Permission::SyncData => 10,
        };
        1u16 << i
    }
}

/// Two different permissions have different positions.
proof fn lemma_flag_index_injective(p: Permission, q: Permission)
    ensures
        p.flag_index() < 16,
        p != q ==> p.flag_index() != q.flag_index(),
{
}

/// Setting bit `i` of `b` sets bit `i` and leaves every other bit as it was.
proof fn lemma_set_bit(b: u16, i: u16, j: u16)
    requires
        i < 16,
        j < 16,
    ensures
        ((b | (1u16 << i)) & (1u16 << j) != 0) == ((b & (1u16 << j) != 0) || i == j),
{
    assert(((b | (1u16 << i)) & (1u16 << j) != 0) == ((b & (1u16 << j) != 0) || i == j))
        by (bit_vector)
        requires
            i < 16,
            j < 16,
    ;
}

/// The empty word has no bit set.
proof fn lemma_zero_bits(j: u16)
    requires
        j < 16,
    ensures
        (0u16 & (1u16 << j)) == 0,
{
    assert((0u16 & (1u16 << j)) == 0) by (bit_vector);
}

/// A set of permissions, kept as one flag per permission.
#[derive(Debug, Clone, Copy, Default)]
pub struct PermissionSet {
    flags: u16,
}

impl View for PermissionSet {
    type V = Set<Permission>;

    /// The permissions whose flag is set.
    closed spec fn view(&self) -> Set<Permission> {
        Set::new(|p: Permission| self.flags & p.flag() != 0)
    }
}

impl PermissionSet {
    /// The empty set.
    pub fn new() -> (s: Self)
        ensures
            s@ == Set::<Permission>::empty(),
    {
        let s = PermissionSet { flags: 0 };
        assert forall|p: Permission| !s@.contains(p) by {
            lemma_flag_index_injective(p, p);
            lemma_zero_bits(p.flag_index());
        }
        assert(s@ =~= Set::<Permission>::empty());
        s
    }

    /// Adds `permission`; adding one already present changes nothing.
    pub fn add(&mut self, permission: Permission)
        ensures
            final(self)@ == old(self)@.insert(permission),
    {
        let f = permission.flag_exec();
        let ghost before = self.flags;
        self.flags = self.flags | f;
        assert forall|q: Permission| #[trigger] final(self)@.contains(q) == old(self)@.insert(
            permission,
        ).contains(q) by {
            lemma_flag_index_injective(permission, q);
            lemma_flag_index_injective(q, permission);
            lemma_set_bit(before, permission.flag_index(), q.flag_index());
        }
        assert(final(self)@ =~= old(self)@.insert(permission));
    }

    /// Whether `permission` is in the set.
    pub fn contains(&self, permission: Permission) -> (r: bool)
        ensures
            r == self@.contains(permission),
    {
        self.flags & permission.flag_exec() != 0
    }
}

} // verus!
