use std::collections::HashMap;
use vstd::prelude::*;

use super::types::{HookContext, HookDefinition, HookPoint, HookResult};

verus! {

/// The hooks of `s` run in order of priority: smaller numbers first.
pub open spec fn priority_sorted(s: Seq<HookDefinition>) -> bool {
    forall|i: int, j: int| 0 <= i < j < s.len() ==> s[i].priority <= s[j].priority
}

/// Where a hook of priority `priority` goes in `s`: just after the last hook
/// whose priority is not greater, so that hooks of equal priority keep the
/// order in which they were registered.
pub open spec fn insert_position(s: Seq<HookDefinition>, priority: u32) -> nat
    decreases s.len(),
{
    if s.len() == 0 {
        0
    } else if priority < s.last().priority {
        insert_position(s.drop_last(), priority)
    } else {
        s.len()
    }
}

/// `s` with `d` placed at its position by priority.
pub open spec fn insert_by_priority(s: Seq<HookDefinition>, d: HookDefinition) -> Seq<
    HookDefinition,
> {
    let k = insert_position(s, d.priority) as int;
    s.take(k) + seq![d] + s.skip(k)
}

/// The position lies within `s`, every hook after it has a greater priority,
/// and, when `s` is in priority order, every hook before it has a priority
/// that is not greater.
pub proof fn lemma_insert_position_bounds(s: Seq<HookDefinition>, priority: u32)
    ensures
        insert_position(s, priority) <= s.len(),
        forall|j: int|
            insert_position(s, priority) <= j < s.len() ==> priority < #[trigger] s[j].priority,
        priority_sorted(s) ==> forall|j: int|
            0 <= j < insert_position(s, priority) ==> #[trigger] s[j].priority <= priority,
    decreases s.len(),
{
    if s.len() > 0 && priority < s.last().priority {
        let t = s.drop_last();
        lemma_insert_position_bounds(t, priority);
        assert forall|j: int| insert_position(s, priority) <= j < s.len() implies priority
            < #[trigger] s[j].priority by {
            if j < t.len() {
                assert(s[j] == t[j]);
            }
        }
        if priority_sorted(s) {
            assert(priority_sorted(t));
            assert forall|j: int| 0 <= j < insert_position(s, priority) implies #[trigger] s[j].priority
                <= priority by {
                assert(s[j] == t[j]);
            }
        }
    } else if s.len() > 0 {
        if priority_sorted(s) {
            assert forall|j: int| 0 <= j < insert_position(s, priority) implies #[trigger] s[j].priority
                <= priority by {
                if j < s.len() - 1 {
                    assert(s[j].priority <= s[s.len() - 1].priority);
                }
            }
        }
    }
}

/// Placing a hook by priority keeps a list in priority order.
pub proof fn lemma_insert_keeps_sorted(s: Seq<HookDefinition>, d: HookDefinition)
    requires
        priority_sorted(s),
    ensures
        priority_sorted(insert_by_priority(s, d)),
        insert_by_priority(s, d).len() == s.len() + 1,
{
    lemma_insert_position_bounds(s, d.priority);
    let k = insert_position(s, d.priority) as int;
    let r = insert_by_priority(s, d);
    assert forall|i: int, j: int| 0 <= i < j < r.len() implies r[i].priority <= r[j].priority by {
        if i < k && j < k {
        } else if i < k && j == k {
        } else if i < k {
            assert(r[j] == s[j - 1]);
        } else if i == k {
            assert(r[j] == s[j - 1]);
        } else {
            assert(r[i] == s[i - 1]);
            assert(r[j] == s[j - 1]);
        }
    }
}

/// Scanning `s` back from the end past hooks of greater priority.
proof fn lemma_insert_position_prefix(s: Seq<HookDefinition>, priority: u32, i: int)
    requires
        0 < i <= s.len(),
        priority < s[i - 1].priority,
    ensures
        insert_position(s.take(i), priority) == insert_position(s.take(i - 1), priority),
{
    assert(s.take(i).drop_last() =~= s.take(i - 1));
}

/// The hooks registered at each point, each list in priority order.
pub struct HookRegistry {
    hooks: HashMap<u8, Vec<HookDefinition>>,
}

impl HookRegistry {
    /// The hooks registered at `point`, in the order in which they run.
    pub closed spec fn hooks_at(&self, point: HookPoint) -> Seq<HookDefinition> {
        if self.hooks@.contains_key(point.code()) {
            self.hooks@[point.code()]@
        } else {
            Seq::empty()
        }
    }

    #[verifier::type_invariant]
    spec fn lists_sorted(self) -> bool {
        forall|c: u8| #[trigger]
            self.hooks@.contains_key(c) ==> priority_sorted(self.hooks@[c]@)
    }

    /// A registry with no hooks.
    pub fn new() -> (r: Self)
        ensures
            forall|p: HookPoint| #[trigger] r.hooks_at(p) == Seq::<HookDefinition>::empty(),
    {
        HookRegistry { hooks: HashMap::new() }
    }

    /// The hooks registered at `point`, in the order in which they run.
    pub fn get_hooks_at_point(&self, point: HookPoint) -> (hooks: &[HookDefinition])
        ensures
            hooks@ == self.hooks_at(point),
            priority_sorted(hooks@),
    {
        proof {
            use_type_invariant(self);
        }
        match self.hooks.get(&point.code_of()) {
            Some(list) => list.as_slice(),
            None => &[],
        }
    }

    /// Registers `definition` at its point, after every hook there whose
    /// priority is not greater and before every hook whose priority is.
    pub fn register(&mut self, definition: HookDefinition)
        ensures
            final(self).hooks_at(definition.point) == insert_by_priority(
                old(self).hooks_at(definition.point),
                definition,
            ),
            forall|p: HookPoint|
                p != definition.point ==> #[trigger] final(self).hooks_at(p) == old(self).hooks_at(p),
            forall|p: HookPoint| #[trigger] priority_sorted(final(self).hooks_at(p)),
    {
        proof {
            use_type_invariant(&*self);
        }
        let key = definition.point.code_of();
        let ghost point = definition.point;
        let ghost old_hooks = self.hooks@;
        let mut hooks: HashMap<u8, Vec<HookDefinition>> = HashMap::new();
        std::mem::swap(&mut hooks, &mut self.hooks);
        let mut list = match hooks.remove(&key) {
            Some(l) => l,
            None => Vec::new(),
        };
        let ghost s = list@;
        assert(s == old(self).hooks_at(point));
        let prio = definition.priority;
        let mut i = list.len();
        assert(s.take(i as int) =~= s);
        while i > 0 && prio < list[i - 1].priority
            invariant
                list@ == s,
                i <= s.len(),
                insert_position(s, prio) == insert_position(s.take(i as int), prio),
            decreases i,
        {
            proof {
                lemma_insert_position_prefix(s, prio, i as int);
            }
            i = i - 1;
        }
        proof {
            if i > 0 {
                assert(s.take(i as int).last() == s[i - 1]);
            }
        }
        let ghost d = definition;
        list.insert(i, definition);
        assert(list@ =~= insert_by_priority(s, d));
        proof {
            lemma_insert_keeps_sorted(s, d);
        }
        hooks.insert(key, list);
        self.hooks = hooks;
        assert forall|p: HookPoint| p != point implies #[trigger] final(self).hooks_at(p) == old(
            self,
        ).hooks_at(p) by {
            super::types::lemma_code_injective(p, point);
        }
        assert forall|p: HookPoint| #[trigger] priority_sorted(final(self).hooks_at(p)) by {
            if p != point {
                super::types::lemma_code_injective(p, point);
            }
        }
    }

    /// Runs the hooks at `point`: every point currently lets execution go
    /// on with the message unchanged.
    pub fn execute(&self, point: HookPoint, context: HookContext) -> (r: HookResult)
        ensures
            r.continue_execution,
            r.modified_message is None,
    {
        HookResult::cont()
    }
}

impl Default for HookRegistry {
    fn default() -> (r: Self)
        ensures
            forall|p: HookPoint| #[trigger] r.hooks_at(p) == Seq::<HookDefinition>::empty(),
    {
        Self::new()
    }
}

} // verus!
