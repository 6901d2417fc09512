use std::collections::HashMap;
use vstd::hash_map::StringHashMap;
use vstd::prelude::*;

use super::definition::{lemma_role_code_injective, AgentId, AgentRole};

verus! {

/// What the registry keeps of an agent: its role and the agent itself.
pub struct RegisteredAgent<A> {
    pub role: AgentRole,
    pub agent: A,
}

/// The agents present under the identifiers `ids`, in that order; an
/// identifier with no agent is passed over.
pub open spec fn agents_with_ids<A>(m: Map<Seq<char>, RegisteredAgent<A>>, ids: Seq<Seq<char>>) -> Seq<A> {
    ids.filter_map(
        |k: Seq<char>|
            if m.contains_key(k) {
                Some(m[k].agent)
            } else {
                None
            },
    )
}

/// The agents under the identifiers `ids` whose own answer says yes:
/// `answers[i]` is the answer of the agent under `ids[i]`, and an identifier
/// with no answer or no agent is passed over. The agents keep the order of
/// `ids`.
pub open spec fn answered_yes<A>(
    m: Map<Seq<char>, RegisteredAgent<A>>,
    ids: Seq<Seq<char>>,
    answers: Seq<bool>,
) -> Seq<A>
    decreases ids.len(),
{
    if ids.len() == 0 {
        Seq::empty()
    } else {
        let i = ids.len() - 1;
        let rest = answered_yes(m, ids.drop_last(), answers);
        if i < answers.len() && answers[i] && m.contains_key(ids[i]) {
            rest.push(m[ids[i]].agent)
        } else {
            rest
        }
    }
}

/// The positions in `ids` whose agent answered yes, in increasing order.
spec fn yes_positions<A>(
    m: Map<Seq<char>, RegisteredAgent<A>>,
    ids: Seq<Seq<char>>,
    answers: Seq<bool>,
) -> Seq<int>
    decreases ids.len(),
{
    if ids.len() == 0 {
        Seq::empty()
    } else {
        let i = ids.len() - 1;
        let rest = yes_positions(m, ids.drop_last(), answers);
        if i < answers.len() && answers[i] && m.contains_key(ids[i]) {
            rest.push(i)
        } else {
            rest
        }
    }
}

proof fn lemma_yes_positions<A>(
    m: Map<Seq<char>, RegisteredAgent<A>>,
    ids: Seq<Seq<char>>,
    answers: Seq<bool>,
)
    ensures
        ({
            let idx = yes_positions(m, ids, answers);
            let r = answered_yes(m, ids, answers);
            &&& idx.len() == r.len()
            &&& forall|j: int|
                0 <= j < idx.len() ==> 0 <= #[trigger] idx[j] < ids.len() && idx[j] < answers.len()
                    && answers[idx[j]] && m.contains_key(ids[idx[j]]) && r[j] == m[ids[idx[j]]].agent
            &&& forall|j1: int, j2: int| 0 <= j1 < j2 < idx.len() ==> idx[j1] < idx[j2]
            &&& forall|i: int|
                0 <= i < ids.len() && i < answers.len() && answers[i] && m.contains_key(
                    #[trigger] ids[i],
                ) ==> idx.contains(i)
        }),
    decreases ids.len(),
{
    if ids.len() > 0 {
        let p = ids.drop_last();
        lemma_yes_positions(m, p, answers);
        let n = ids.len() - 1;
        let idx0 = yes_positions(m, p, answers);
        let idx = yes_positions(m, ids, answers);
        let r = answered_yes(m, ids, answers);
        assert forall|j: int| 0 <= j < idx0.len() implies ids[#[trigger] idx0[j]] == p[idx0[j]] by {
        }
        assert forall|i: int|
            0 <= i < ids.len() && i < answers.len() && answers[i] && m.contains_key(
                #[trigger] ids[i],
            ) implies idx.contains(i) by {
            if i < n {
                assert(p[i] == ids[i]);
                assert(idx0.contains(i));
                let j = choose|j: int| 0 <= j < idx0.len() && idx0[j] == i;
                assert(idx[j] == i);
            } else {
                assert(idx[idx.len() - 1] == i);
            }
        }
        assert forall|j: int| 0 <= j < idx.len() implies 0 <= #[trigger] idx[j] < ids.len()
            && idx[j] < answers.len() && answers[idx[j]] && m.contains_key(ids[idx[j]]) && r[j]
            == m[ids[idx[j]]].agent by {
            if j < idx0.len() {
                assert(idx[j] == idx0[j]);
                assert(ids[idx0[j]] == p[idx0[j]]);
            }
        }
    }
}

/// The agents that answered yes are listed, and only they: each registered
/// agent whose answer is yes appears, wherever its identifier stands (the
/// last registered included); each listed agent is that of an identifier
/// whose agent answered yes; and they come once each, in the order of the
/// identifiers.
pub proof fn lemma_answered_yes_exact<A>(
    m: Map<Seq<char>, RegisteredAgent<A>>,
    ids: Seq<Seq<char>>,
    answers: Seq<bool>,
)
    ensures
        exists|idx: Seq<int>|
            {
                &&& #[trigger] idx.len() == answered_yes(m, ids, answers).len()
                &&& forall|j: int|
                    0 <= j < idx.len() ==> 0 <= #[trigger] idx[j] < ids.len() && idx[j]
                        < answers.len() && answers[idx[j]] && m.contains_key(ids[idx[j]])
                        && answered_yes(m, ids, answers)[j] == m[ids[idx[j]]].agent
                &&& forall|j1: int, j2: int| 0 <= j1 < j2 < idx.len() ==> idx[j1] < idx[j2]
                &&& forall|i: int|
                    0 <= i < ids.len() && i < answers.len() && answers[i] && m.contains_key(
                        #[trigger] ids[i],
                    ) ==> idx.contains(i)
            },
{
    lemma_yes_positions(m, ids, answers);
    let idx = yes_positions(m, ids, answers);
    assert(idx.len() == answered_yes(m, ids, answers).len());
}

/// A list of distinct identifiers that are exactly the keys of `m` is as
/// long as `m`.
proof fn lemma_ids_len<V>(ids: Seq<Seq<char>>, m: Map<Seq<char>, V>)
    requires
        ids.no_duplicates(),
        forall|k: Seq<char>| #[trigger] m.contains_key(k) <==> ids.contains(k),
    ensures
        ids.len() == m.len(),
{
    ids.unique_seq_to_set();
    assert(ids.to_set() =~= m.dom());
}

/// The agents of a session, by identifier, with an index from roles to the
/// identifiers registered under them.
#[verifier::reject_recursive_types(A)]
pub struct AgentRegistry<A> {
    agents: StringHashMap<RegisteredAgent<A>>,
    order: Vec<AgentId>,
    role_index: HashMap<u8, Vec<AgentId>>,
}

impl<A> AgentRegistry<A> {
    /// Each registered identifier and what is kept of its agent.
    pub closed spec fn agent_map(&self) -> Map<Seq<char>, RegisteredAgent<A>> {
        self.agents@
    }

    /// The registered identifiers, each once, in order of first registration.
    pub closed spec fn ids(&self) -> Seq<Seq<char>> {
        self.order@.map_values(|id: AgentId| id@)
    }

    /// The identifiers registered under `role`, once per registration, in
    /// order of registration.
    pub closed spec fn role_ids(&self, role: AgentRole) -> Seq<Seq<char>> {
        if self.role_index@.contains_key(role.code()) {
            self.role_index@[role.code()]@.map_values(|id: AgentId| id@)
        } else {
            Seq::empty()
        }
    }

    #[verifier::type_invariant]
    spec fn ids_match_agents(self) -> bool {
        &&& self.ids().no_duplicates()
        &&& forall|k: Seq<char>| #[trigger]
            self.agents@.contains_key(k) <==> self.ids().contains(k)
    }


    /// A registry with no agents.
    pub fn new() -> (r: Self)
        ensures
            r.agent_map() == Map::<Seq<char>, RegisteredAgent<A>>::empty(),
            r.ids() == Seq::<Seq<char>>::empty(),
            forall|role: AgentRole| #[trigger] r.role_ids(role) == Seq::<Seq<char>>::empty(),
    {
        let r = AgentRegistry {
            agents: StringHashMap::new(),
            order: Vec::new(),
            role_index: HashMap::new(),
        };
        assert(r.ids() =~= Seq::<Seq<char>>::empty());
        r
    }

    /// Registers `agent` under `id` with its role. An agent
    /// already under `id` is replaced; `id` is added to the index of `role`
    /// once more, whatever was registered before.
    pub fn register(
        &mut self,
        id: AgentId,
        role: AgentRole,
        agent: A,
    )
        ensures
            final(self).agent_map() == old(self).agent_map().insert(
                id@,
                RegisteredAgent { role, agent },
            ),
            final(self).ids() == if old(self).agent_map().contains_key(id@) {
                old(self).ids()
            } else {
                old(self).ids().push(id@)
            },
            final(self).role_ids(role) == old(self).role_ids(role).push(id@),
            forall|r: AgentRole| r != role ==> #[trigger] final(self).role_ids(r) == old(self).role_ids(r),
            final(self).agent_map().len() == old(self).agent_map().len() + if old(
                self,
            ).agent_map().contains_key(id@) {
                0int
            } else {
                1int
            },
            final(self).ids().no_duplicates(),
            forall|k: Seq<char>| #[trigger]
                final(self).agent_map().contains_key(k) <==> final(self).ids().contains(k),
    {
        let mut this = Self::new();
        std::mem::swap(&mut this, self);
        proof {
            use_type_invariant(&this);
        }
        let ghost before = this;
        let AgentRegistry { mut agents, mut order, mut role_index } = this;
        let known = agents.contains_key(id.as_str());
        let key = String::from_str(id.as_str());
        let for_index = AgentId::new(id.as_str());
        if !known {
            order.push(id);
            assert(order@.map_values(|i: AgentId| i@) =~= before.ids().push(key@));
        }
        let code = role.code_of();
        let mut list = match role_index.remove(&code) {
            Some(l) => l,
            None => Vec::new(),
        };
        let ghost prev_list = list@;
        list.push(for_index);
        role_index.insert(code, list);
        agents.insert(key, RegisteredAgent { role, agent });
        proof {
            let new_ids = order@.map_values(|i: AgentId| i@);
            if known {
                assert(new_ids =~= before.ids());
                assert(before.ids().contains(key@));
            } else {
                assert(!before.ids().contains(key@));
            }
            assert forall|k: Seq<char>| #[trigger] agents@.contains_key(k) <==> new_ids.contains(k) by {
                if k == key@ {
                    if !known {
                        assert(new_ids[new_ids.len() - 1] == key@);
                    }
                } else if new_ids.contains(k) {
                    let j = choose|j: int| 0 <= j < new_ids.len() && new_ids[j] == k;
                    if !known && j == new_ids.len() - 1 {
                    } else {
                        assert(before.ids()[j] == k);
                    }
                } else if before.ids().contains(k) {
                    let j = choose|j: int| 0 <= j < before.ids().len() && before.ids()[j] == k;
                    assert(new_ids[j] == k);
                }
            }
        }
        *self = AgentRegistry { agents, order, role_index };
        proof {
            use_type_invariant(&*self);
            lemma_ids_len(before.ids(), before.agent_map());
            lemma_ids_len(final(self).ids(), final(self).agent_map());
        }
        assert(final(self).role_ids(role) =~= before.role_ids(role).push(key@)) by {
            assert(list@.map_values(|i: AgentId| i@) =~= prev_list.map_values(|i: AgentId| i@).push(
                key@,
            ));
        }
        assert forall|r: AgentRole| r != role implies #[trigger] final(self).role_ids(r)
            == before.role_ids(r) by {
            lemma_role_code_injective(r, role);
        }
    }

    /// The agent registered under `id`, if any.
    pub fn get(&self, id: &AgentId) -> (a: Option<&A>)
        ensures
            self.agent_map().contains_key(id@) ==> a == Some(&self.agent_map()[id@].agent),
            !self.agent_map().contains_key(id@) ==> a is None,
    {
        match self.agents.get(id.as_str()) {
            Some(e) => Some(&e.agent),
            None => None,
        }
    }

    /// The agents registered under `role`, in order of registration; an
    /// agent registered there more than once appears once per registration,
    /// and an identifier whose agent was since registered under another role
    /// gives that agent.
    pub fn get_by_role(&self, role: AgentRole) -> (v: Vec<&A>)
        ensures
            v@.map_values(|a: &A| *a) == agents_with_ids(self.agent_map(), self.role_ids(role)),
    {
        let mut v: Vec<&A> = Vec::new();
        match self.role_index.get(&role.code_of()) {
            None => {
                assert(self.role_ids(role) =~= Seq::<Seq<char>>::empty());
                assert(v@.map_values(|a: &A| *a) =~= Seq::<A>::empty());
            },
            Some(list) => {
                let ghost ids = list@.map_values(|i: AgentId| i@);
                assert(ids == self.role_ids(role));
                let ghost f = |k: Seq<char>|
                    if self.agent_map().contains_key(k) {
                        Some(self.agent_map()[k].agent)
                    } else {
                        None
                    };
                let mut i: usize = 0;
                while i < list.len()
                    invariant
                        i <= list@.len(),
                        ids == list@.map_values(|i: AgentId| i@),
                        f == (|k: Seq<char>|
                            if self.agent_map().contains_key(k) {
                                Some(self.agent_map()[k].agent)
                            } else {
                                None
                            }),
                        v@.map_values(|a: &A| *a) == ids.take(i as int).filter_map(f),
                    decreases list@.len() - i,
                {
                    proof {
                        ids.lemma_filter_map_take_succ(f, i as int);
                    }
                    let ghost prev = v@;
                    match self.agents.get(list[i].as_str()) {
                        Some(e) => {
                            v.push(&e.agent);
                            assert(v@.map_values(|a: &A| *a) =~= prev.map_values(|a: &A| *a)
                                + seq![e.agent]);
                        },
                        None => {},
                    }
                    i = i + 1;
                }
                assert(ids.take(list@.len() as int) =~= ids);
            },
        }
        v
    }

    /// Every registered agent, once each, in order of first registration.
    pub fn all(&self) -> (v: Vec<&A>)
        ensures
            v@.map_values(|a: &A| *a) == agents_with_ids(self.agent_map(), self.ids()),
            v@.len() == self.agent_map().len(),
    {
        proof {
            use_type_invariant(self);
            lemma_ids_len(self.ids(), self.agent_map());
        }
        let ghost ids = self.ids();
        let ghost f = |k: Seq<char>|
            if self.agent_map().contains_key(k) {
                Some(self.agent_map()[k].agent)
            } else {
                None
            };
        let mut v: Vec<&A> = Vec::new();
        let mut i: usize = 0;
        while i < self.order.len()
            invariant
                i <= self.order@.len(),
                ids == self.ids(),
                self.ids().no_duplicates(),
                forall|k: Seq<char>| #[trigger]
                    self.agent_map().contains_key(k) <==> self.ids().contains(k),
                f == (|k: Seq<char>|
                    if self.agent_map().contains_key(k) {
                        Some(self.agent_map()[k].agent)
                    } else {
                        None
                    }),
                v@.map_values(|a: &A| *a) == ids.take(i as int).filter_map(f),
                v@.len() == i,
            decreases self.order@.len() - i,
        {
            proof {
                ids.lemma_filter_map_take_succ(f, i as int);
                assert(ids[i as int] == self.order@[i as int]@);
                assert(self.ids().contains(ids[i as int]));
            }
            let ghost prev = v@;
            match self.agents.get(self.order[i].as_str()) {
                Some(e) => {
                    v.push(&e.agent);
                    assert(v@.map_values(|a: &A| *a) =~= prev.map_values(|a: &A| *a) + seq![
                        e.agent,
                    ]);
                },
                None => {},
            }
            i = i + 1;
        }
        assert(ids.take(self.order@.len() as int) =~= ids);
        v
    }

    /// The number of registered agents.
    pub fn len(&self) -> (n: usize)
        ensures
            n == self.agent_map().len(),
            n == self.ids().len(),
            self.ids().no_duplicates(),
            forall|k: Seq<char>| #[trigger]
                self.agent_map().contains_key(k) <==> self.ids().contains(k),
    {
        proof {
            use_type_invariant(self);
            lemma_ids_len(self.ids(), self.agent_map());
        }
        self.agents.len()
    }

    /// Whether no agent is registered.
    pub fn is_empty(&self) -> (b: bool)
        ensures
            b == (self.agent_map().len() == 0),
    {
        self.agents.len() == 0
    }

    /// The registered agents that work at the stage in question, in order
    /// of first registration. Each agent decides that for itself: `answers[i]`
    /// is the answer of the agent under the `i`-th identifier of `ids()` (the
    /// order in which `all` lists the agents); an agent with no answer is
    /// passed over.
    pub fn get_available_agents(&self, answers: &[bool]) -> (v: Vec<&A>)
        ensures
            v@.map_values(|a: &A| *a) == answered_yes(self.agent_map(), self.ids(), answers@),
            v@.len() <= self.agent_map().len(),
    {
        proof {
            use_type_invariant(self);
            lemma_ids_len(self.ids(), self.agent_map());
        }
        let ghost ids = self.ids();
        let mut v: Vec<&A> = Vec::new();
        let mut i: usize = 0;
        assert(ids.take(0) =~= Seq::<Seq<char>>::empty());
        while i < self.order.len()
            invariant
                i <= self.order@.len(),
                ids == self.ids(),
                v@.map_values(|a: &A| *a) == answered_yes(self.agent_map(), ids.take(i as int), answers@),
                v@.len() <= i,
            decreases self.order@.len() - i,
        {
            proof {
                assert(ids.take(i + 1).drop_last() =~= ids.take(i as int));
                assert(ids[i as int] == self.order@[i as int]@);
            }
            let ghost prev = v@;
            if i < answers.len() && answers[i] {
                match self.agents.get(self.order[i].as_str()) {
                    Some(e) => {
                        v.push(&e.agent);
                        assert(v@.map_values(|a: &A| *a) =~= prev.map_values(|a: &A| *a).push(
                            e.agent,
                        ));
                    },
                    None => {},
                }
            }
            i = i + 1;
        }
        assert(ids.take(self.order@.len() as int) =~= ids);
        v
    }

    /// Whether an agent is registered under `id` and works at the stage in
    /// question; `answer` is that agent's own answer.
    pub fn is_agent_available(&self, id: &AgentId, answer: bool) -> (b: bool)
        ensures
            b == (self.agent_map().contains_key(id@) && answer),
    {
        self.agents.contains_key(id.as_str()) && answer
    }
}

impl<A> Default for AgentRegistry<A> {
    fn default() -> (r: Self)
        ensures
            r.agent_map() == Map::<Seq<char>, RegisteredAgent<A>>::empty(),
            r.ids() == Seq::<Seq<char>>::empty(),
            forall|role: AgentRole| #[trigger] r.role_ids(role) == Seq::<Seq<char>>::empty(),
    {
        Self::new()
    }
}

/// After an agent is registered under `id` with some role, the agents of that
/// role end with it: the identifiers of the role gain `id` at their end, and
/// whatever came before is looked up as before in the updated registry.
pub proof fn lemma_register_then_get_by_role<A>(
    m: Map<Seq<char>, RegisteredAgent<A>>,
    role_ids: Seq<Seq<char>>,
    id: Seq<char>,
    entry: RegisteredAgent<A>,
)
    ensures
        agents_with_ids(m.insert(id, entry), role_ids.push(id)) == agents_with_ids(
            m.insert(id, entry),
            role_ids,
        ).push(entry.agent),
{
    let m2 = m.insert(id, entry);
    assert(role_ids.push(id).drop_last() =~= role_ids);
    assert(role_ids.push(id).last() == id);
    assert(agents_with_ids(m2, role_ids.push(id)) =~= agents_with_ids(m2, role_ids) + seq![
        entry.agent,
    ]);
}

/// After an agent is registered under `id`, looking `id` up finds it, and
/// every other identifier finds what it found before.
pub proof fn lemma_register_then_get<A>(
    m: Map<Seq<char>, RegisteredAgent<A>>,
    id: Seq<char>,
    entry: RegisteredAgent<A>,
    other: Seq<char>,
)
    ensures
        m.insert(id, entry).contains_key(id),
        m.insert(id, entry)[id] == entry,
        other != id ==> m.insert(id, entry).contains_key(other) == m.contains_key(other),
        other != id ==> m.insert(id, entry)[other] == m[other],
{
}

/// The registry's map after the registrations `regs`, in order, starting
/// from an empty registry (each registration: an identifier and what is kept
/// of its agent).
pub open spec fn history_map<A>(regs: Seq<(Seq<char>, RegisteredAgent<A>)>) -> Map<
    Seq<char>,
    RegisteredAgent<A>,
>
    decreases regs.len(),
{
    if regs.len() == 0 {
        Map::empty()
    } else {
        history_map(regs.drop_last()).insert(regs.last().0, regs.last().1)
    }
}

/// The identifiers indexed under `role` after the registrations `regs`.
pub open spec fn history_role_ids<A>(regs: Seq<(Seq<char>, RegisteredAgent<A>)>, role: AgentRole) -> Seq<
    Seq<char>,
>
    decreases regs.len(),
{
    if regs.len() == 0 {
        Seq::empty()
    } else {
        let rest = history_role_ids(regs.drop_last(), role);
        if regs.last().1.role == role {
            rest.push(regs.last().0)
        } else {
            rest
        }
    }
}

/// The registrations `regs` use pairwise different identifiers.
pub open spec fn distinct_ids<A>(regs: Seq<(Seq<char>, RegisteredAgent<A>)>) -> bool {
    forall|i: int, j: int| 0 <= i < j < regs.len() ==> regs[i].0 != regs[j].0
}

/// Each identifier indexed under `role` is that of one of the registrations.
proof fn lemma_history_role_ids_registered<A>(regs: Seq<(Seq<char>, RegisteredAgent<A>)>, role: AgentRole)
    ensures
        forall|j: int|
            0 <= j < history_role_ids(regs, role).len() ==> exists|i: int|
                0 <= i < regs.len() && regs[i].0 == #[trigger] history_role_ids(regs, role)[j],
    decreases regs.len(),
{
    if regs.len() > 0 {
        let p = regs.drop_last();
        lemma_history_role_ids_registered(p, role);
        let ids = history_role_ids(regs, role);
        assert forall|j: int| 0 <= j < ids.len() implies exists|i: int|
            0 <= i < regs.len() && regs[i].0 == #[trigger] ids[j] by {
            if j < history_role_ids(p, role).len() {
                let i = choose|i: int| 0 <= i < p.len() && p[i].0 == history_role_ids(p, role)[j];
                assert(regs[i] == p[i]);
            } else {
                assert(regs[regs.len() - 1].0 == ids[j]);
            }
        }
    }
}

/// Adding an agent under an identifier not among `ids` changes nothing of
/// the agents found under `ids`.
proof fn lemma_agents_with_ids_insert_other<A>(
    m: Map<Seq<char>, RegisteredAgent<A>>,
    ids: Seq<Seq<char>>,
    k: Seq<char>,
    v: RegisteredAgent<A>,
)
    requires
        !ids.contains(k),
    ensures
        agents_with_ids(m.insert(k, v), ids) == agents_with_ids(m, ids),
    decreases ids.len(),
{
    if ids.len() > 0 {
        let p = ids.drop_last();
        assert(!p.contains(k)) by {
            if p.contains(k) {
                let i = choose|i: int| 0 <= i < p.len() && p[i] == k;
                assert(ids[i] == k);
            }
        }
        assert(ids[ids.len() - 1] != k);
        lemma_agents_with_ids_insert_other(m, p, k, v);
    }
}

/// Over any history of registrations with different identifiers, the agents
/// found for a role are exactly the agents registered with that role, each
/// once, in order of registration (none when there is none).
pub proof fn lemma_get_by_role_history<A>(regs: Seq<(Seq<char>, RegisteredAgent<A>)>, role: AgentRole)
    requires
        distinct_ids(regs),
    ensures
        agents_with_ids(history_map(regs), history_role_ids(regs, role)) == regs.filter(
            |x: (Seq<char>, RegisteredAgent<A>)| x.1.role == role,
        ).map_values(|x: (Seq<char>, RegisteredAgent<A>)| x.1.agent),
    decreases regs.len(),
{
    let pred = |x: (Seq<char>, RegisteredAgent<A>)| x.1.role == role;
    let f = |x: (Seq<char>, RegisteredAgent<A>)| x.1.agent;
    if regs.len() == 0 {
        reveal_with_fuel(Seq::filter, 1);
        assert(regs.filter(pred) =~= regs);
        assert(agents_with_ids(history_map(regs), history_role_ids(regs, role)) =~= Seq::<A>::empty());
    } else {
        let p = regs.drop_last();
        let (k, e) = regs.last();
        assert(distinct_ids(p));
        lemma_get_by_role_history(p, role);
        let ids_p = history_role_ids(p, role);
        let m_p = history_map(p);
        lemma_history_role_ids_registered(p, role);
        assert(!ids_p.contains(k)) by {
            if ids_p.contains(k) {
                let j = choose|j: int| 0 <= j < ids_p.len() && ids_p[j] == k;
                let i = choose|i: int| 0 <= i < p.len() && p[i].0 == #[trigger] ids_p[j];
                assert(regs[i].0 == regs[regs.len() - 1].0);
            }
        }
        lemma_agents_with_ids_insert_other(m_p, ids_p, k, e);
        let m = m_p.insert(k, e);
        reveal_with_fuel(Seq::filter, 1);
        if e.role == role {
            let ids = ids_p.push(k);
            assert(ids.drop_last() =~= ids_p);
            assert(agents_with_ids(m, ids) =~= agents_with_ids(m, ids_p) + seq![e.agent]);
            assert(regs.filter(pred) == p.filter(pred).push(regs.last()));
            assert(regs.filter(pred).map_values(f) =~= p.filter(pred).map_values(f).push(e.agent));
        } else {
            assert(regs.filter(pred) == p.filter(pred));
        }
    }
}

} // verus!
