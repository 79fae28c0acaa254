//! Agents, their capsules, the agent registry and the first-in first-out
//! intent scheduler.

use vstd::prelude::*;
use vstd::hash_map::HashMapWithView;
use std::collections::VecDeque;
use crate::arkhe_core::{AgentId, CapabilityToken, Intent};
use crate::text::string_of;

verus! {

/// The isolation capsule of an agent.
pub struct Capsule {
    pub agent_id: AgentId,
}

impl Capsule {
    /// The capsule of `agent_id`.
    pub fn new(agent_id: AgentId) -> (c: Capsule)
        ensures
            c.agent_id == agent_id,
    {
        Capsule { agent_id }
    }
}

/// An agent: its id, name, capsule, granted capabilities and submitted
/// intents.
pub struct Agent {
    pub id: AgentId,
    pub name: String,
    pub capsule: Capsule,
    pub capabilities: Vec<CapabilityToken>,
    pub intent_queue: Vec<Intent>,
}

impl Agent {
    /// A new agent with no capabilities and no intents, in its own capsule.
    pub fn new(id: AgentId, name: &str) -> (a: Agent)
        ensures
            a.id == id,
            a.name@ == name@,
            a.capsule.agent_id == id,
            a.capabilities@.len() == 0,
            a.intent_queue@.len() == 0,
    {
        Agent {
            id,
            name: string_of(name),
            capsule: Capsule::new(id),
            capabilities: Vec::new(),
            intent_queue: Vec::new(),
        }
    }

    /// Queues an intent behind the agent's earlier ones.
    pub fn submit_intent(&mut self, intent: Intent)
        ensures
            final(self).intent_queue@ == old(self).intent_queue@.push(intent),
            final(self).id == old(self).id,
            final(self).name == old(self).name,
            final(self).capsule == old(self).capsule,
            final(self).capabilities == old(self).capabilities,
    {
        self.intent_queue.push(intent);
    }
}

/// The registry of agents, which hands out ids in increasing order.
pub struct AgentManager {
    agents: HashMapWithView<u64, Agent>,
    next_id: u64,
}

impl AgentManager {
    /// The agents by id number.
    pub closed spec fn agents(&self) -> Map<u64, Agent> {
        self.agents@
    }

    /// The id number the next agent gets.
    pub closed spec fn next(&self) -> u64 {
        self.next_id
    }

    /// Every registered agent has an id below the next one, and is stored
    /// under its own id.
    pub closed spec fn wf(&self) -> bool {
        forall|k: u64| #[trigger] self.agents@.contains_key(k) ==> k < self.next_id && self.agents@[k].id.0 == k
    }

    /// An empty registry that starts numbering at 0.
    pub fn new() -> (m: AgentManager)
        ensures
            m.wf(),
            m.agents() == Map::<u64, Agent>::empty(),
            m.next() == 0,
    {
        broadcast use vstd::std_specs::hash::group_hash_axioms;
        AgentManager { agents: HashMapWithView::new(), next_id: 0 }
    }

    /// Registers a new agent named `name` under the next id and returns that
    /// id.
    pub fn create_agent(&mut self, name: &str) -> (id: AgentId)
        requires
            old(self).wf(),
            old(self).next() < u64::MAX,
        ensures
            final(self).wf(),
            id.0 == old(self).next(),
            final(self).next() == old(self).next() + 1,
            !old(self).agents().contains_key(id.0),
            final(self).agents().contains_key(id.0),
            final(self).agents()[id.0].name@ == name@,
            final(self).agents()[id.0].id == id,
            final(self).agents() == old(self).agents().insert(id.0, final(self).agents()[id.0]),
    {
        let id = AgentId(self.next_id);
        self.next_id = self.next_id + 1;
        let agent = Agent::new(id, name);
        self.agents.insert(id.0, agent);
        id
    }

    /// The agent with the given id, if it is registered.
    pub fn get_agent(&self, id: AgentId) -> (r: Option<&Agent>)
        ensures
            match r {
                Some(a) => self.agents().contains_key(id.0) && *a == self.agents()[id.0],
                None => !self.agents().contains_key(id.0),
            },
    {
        self.agents.get(&id.0)
    }
}

/// Ids are never handed out twice: in a well-formed registry every
/// registered id lies below the id the next creation returns, and each agent
/// is stored under its own id.
pub proof fn lemma_registered_ids_below_next(m: AgentManager, k: u64)
    requires
        m.wf(),
        m.agents().contains_key(k),
    ensures
        k < m.next(),
        m.agents()[k].id.0 == k,
{
}

/// One scheduling step: with nothing waiting it gives nothing and the queue
/// stays; otherwise it gives the first waiting intent and drops it.
pub open spec fn scheduled(before: Seq<Intent>, out: Option<Intent>, after: Seq<Intent>) -> bool {
    if before.len() == 0 {
        out is None && after == before
    } else {
        out == Some(before[0]) && after == before.drop_first()
    }
}

/// Queues intents and hands them out in the order they were submitted.
pub struct IntentScheduler {
    queue: VecDeque<Intent>,
}

impl IntentScheduler {
    /// The intents waiting, in the order they will be handed out.
    pub closed spec fn pending(&self) -> Seq<Intent> {
        self.queue@
    }

    /// An empty scheduler.
    pub fn new() -> (s: IntentScheduler)
        ensures
            s.pending() == Seq::<Intent>::empty(),
    {
        IntentScheduler { queue: VecDeque::new() }
    }

    /// Queues an intent behind the waiting ones.
    pub fn submit(&mut self, intent: Intent)
        ensures
            final(self).pending() == old(self).pending().push(intent),
    {
        self.queue.push_back(intent);
    }

    /// Hands out the intent that has waited longest, if any.
    pub fn schedule_next(&mut self) -> (r: Option<Intent>)
        ensures
            scheduled(old(self).pending(), r, final(self).pending()),
    {
        self.queue.pop_front()
    }
}

/// First-in first-out over a whole run of scheduling calls: once the
/// intents `q` have been submitted in order (each submission appends one, so
/// `q` waits), the `i`-th scheduling call hands out `q[i]` while there is
/// one, and nothing afterwards.
pub proof fn lemma_scheduling_run(q: Seq<Intent>, queues: Seq<Seq<Intent>>, outs: Seq<Option<Intent>>)
    requires
        queues.len() == outs.len() + 1,
        queues[0] == q,
        forall|i: int| 0 <= i < outs.len() ==> scheduled(#[trigger] queues[i], outs[i], queues[i + 1]),
    ensures
        forall|i: int| 0 <= i < outs.len() ==> #[trigger] outs[i] == (if i < q.len() {
            Some(q[i])
        } else {
            None::<Intent>
        }),
    decreases outs.len(),
{
    if outs.len() > 0 {
        let n = (outs.len() - 1) as int;
        lemma_scheduling_run(q, queues.take(n + 1), outs.take(n));
        lemma_queue_after(q, queues, outs, n);
        assert forall|i: int| 0 <= i < outs.len() implies #[trigger] outs[i] == (if i < q.len() {
            Some(q[i])
        } else {
            None::<Intent>
        }) by {
            if i < n {
                assert(outs.take(n)[i] == outs[i]);
            }
        }
    }
}

proof fn lemma_queue_after(q: Seq<Intent>, queues: Seq<Seq<Intent>>, outs: Seq<Option<Intent>>, k: int)
    requires
        queues.len() == outs.len() + 1,
        queues[0] == q,
        forall|i: int| 0 <= i < outs.len() ==> scheduled(#[trigger] queues[i], outs[i], queues[i + 1]),
        0 <= k <= outs.len(),
    ensures
        queues[k] == (if k <= q.len() { q.skip(k) } else { Seq::<Intent>::empty() }),
    decreases k,
{
    if k == 0 {
        assert(q.skip(0) =~= q);
    } else {
        lemma_queue_after(q, queues, outs, k - 1);
        assert(scheduled(queues[k - 1], outs[k - 1], queues[k]));
        if k <= q.len() {
            assert(q.skip(k - 1).drop_first() =~= q.skip(k));
        } else if k - 1 == q.len() {
            assert(q.skip(k - 1).len() == 0);
        }
    }
}

} // verus!
