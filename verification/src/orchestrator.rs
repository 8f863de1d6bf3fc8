//! The orchestrator: an agent registry keyed by category, the tick that
//! generates seed tasks, dispatches them, records the resulting changes,
//! runs them through the evaluation policy and collects rollback targets, and
//! the aggregate statistics.
//!
//! The periodic driving loop and every file-system effect live outside the
//! library: a tick hands back the changes whose files must be restored.

use vstd::prelude::*;
use crate::agents::Agent;
use crate::agents::AgentResult;
use crate::agents::AgentTask;
use crate::agents::AgentType;
use crate::agents::ContentAgent;
use crate::agents::FeatureAgent;
use crate::agents::PerformanceAgent;
use crate::agents::ScriptedAgent;
use crate::agents::UIAgent;
use crate::evaluator::ChangeEvaluator;
use crate::evaluator::spec_evaluate;
use crate::ids::fresh_id;
use crate::ids::now_millis;
use crate::task_queue::TaskQueue;
use crate::version_control::Change;
use crate::version_control::ChangeView;
use crate::version_control::VersionControl;
use crate::version_control::VersionSnapshotView;
use crate::version_control::find_change;
use crate::version_control::has_id;

verus! {

/// Counters the orchestrator maintains; timestamps are in milliseconds.
/// `successful_changes` counts changes the policy kept;
/// `rollback_failures` counts rollbacks that the caller reported as
/// failed on disk, so a file left inconsistent with its recorded score
/// stays observable.
#[derive(Debug, Clone, Copy)]
pub struct OrchestratorStats {
    pub total_tasks_executed: usize,
    pub successful_changes: usize,
    pub rolled_back_changes: usize,
    pub rollback_failures: usize,
    pub agents_active: usize,
    pub last_activity: Option<i64>,
}

impl Default for OrchestratorStats {
    /// All counters at zero, no activity yet.
    fn default() -> (s: OrchestratorStats)
        ensures
            s.total_tasks_executed == 0,
            s.successful_changes == 0,
            s.rolled_back_changes == 0,
            s.rollback_failures == 0,
            s.agents_active == 0,
            s.last_activity is None,
    {
        OrchestratorStats {
            total_tasks_executed: 0,
            successful_changes: 0,
            rolled_back_changes: 0,
            rollback_failures: 0,
            agents_active: 0,
            last_activity: None,
        }
    }
}

/// `n` plus one, held at the counter's ceiling.
pub open spec fn sat_inc_spec(n: usize) -> usize {
    if n < usize::MAX {
        (n + 1) as usize
    } else {
        n
    }
}

/// `a` plus `b`, held at the counter's ceiling.
pub open spec fn sat_add_spec(a: int, b: int) -> int {
    if a + b <= usize::MAX {
        a + b
    } else {
        usize::MAX as int
    }
}

fn sat_inc(n: usize) -> (r: usize)
    ensures
        r == sat_inc_spec(n),
{
    if n < usize::MAX {
        n + 1
    } else {
        n
    }
}

/// One registered agent, grouped by capability.
pub enum RegisteredAgent {
    Ui(UIAgent),
    Performance(PerformanceAgent),
    Content(ContentAgent),
    Feature(FeatureAgent),
    Scripted(ScriptedAgent),
}

impl RegisteredAgent {
    /// The category this agent serves.
    pub open spec fn spec_type(&self) -> AgentType {
        match self {
            RegisteredAgent::Ui(a) => a.spec_type(),
            RegisteredAgent::Performance(a) => a.spec_type(),
            RegisteredAgent::Content(a) => a.spec_type(),
            RegisteredAgent::Feature(a) => a.spec_type(),
            RegisteredAgent::Scripted(a) => a.spec_type(),
        }
    }

    /// What this agent promises of the outcome of a task.
    pub open spec fn spec_execute_ensures(
        &self,
        task: AgentTask,
        r: Result<AgentResult, String>,
    ) -> bool {
        match self {
            RegisteredAgent::Ui(a) => a.execute_ensures(task, r),
            RegisteredAgent::Performance(a) => a.execute_ensures(task, r),
            RegisteredAgent::Content(a) => a.execute_ensures(task, r),
            RegisteredAgent::Feature(a) => a.execute_ensures(task, r),
            RegisteredAgent::Scripted(a) => a.execute_ensures(task, r),
        }
    }

    /// The category this agent serves.
    pub fn agent_type(&self) -> (t: AgentType)
        ensures
            t == self.spec_type(),
    {
        match self {
            RegisteredAgent::Ui(a) => a.get_type(),
            RegisteredAgent::Performance(a) => a.get_type(),
            RegisteredAgent::Content(a) => a.get_type(),
            RegisteredAgent::Feature(a) => a.get_type(),
            RegisteredAgent::Scripted(a) => a.get_type(),
        }
    }

    /// Hands the task to the agent behind this entry.
    pub fn execute_task(&self, task: &AgentTask, base_path: &str) -> (r: Result<
        AgentResult,
        String,
    >)
        ensures
            self.spec_execute_ensures(*task, r),
    {
        match self {
            RegisteredAgent::Ui(a) => a.execute_task(task, base_path),
            RegisteredAgent::Performance(a) => a.execute_task(task, base_path),
            RegisteredAgent::Content(a) => a.execute_task(task, base_path),
            RegisteredAgent::Feature(a) => a.execute_task(task, base_path),
            RegisteredAgent::Scripted(a) => a.execute_task(task, base_path),
        }
    }
}

/// The agents registered for one category.
pub struct AgentBucket {
    pub agent_type: AgentType,
    pub agents: Vec<RegisteredAgent>,
}

/// Bucket categories never repeat.
pub open spec fn buckets_wf(s: Seq<AgentBucket>) -> bool {
    forall|i: int, j: int|
        0 <= i < j < s.len() ==> #[trigger] s[i].agent_type != #[trigger] s[j].agent_type
}

/// What registering `agent` did to the buckets: it joined its category's
/// bucket, or opened a fresh one at the end.
pub open spec fn registered(
    pre: Seq<AgentBucket>,
    post: Seq<AgentBucket>,
    agent: RegisteredAgent,
) -> bool {
    if exists|i: int| 0 <= i < pre.len() && pre[i].agent_type == agent.spec_type() {
        exists|i: int|
            {
                &&& 0 <= i < pre.len()
                &&& pre[i].agent_type == agent.spec_type()
                &&& post.len() == pre.len()
                &&& forall|j: int| 0 <= j < pre.len() && j != i ==> post[j] == pre[j]
                &&& post[i].agent_type == pre[i].agent_type
                &&& post[i].agents@ == pre[i].agents@.push(agent)
            }
    } else {
        &&& post.len() == pre.len() + 1
        &&& post.take(pre.len() as int) == pre
        &&& post.last().agent_type == agent.spec_type()
        &&& post.last().agents@ =~= seq![agent]
    }
}

/// A change after the policy wrote its score back.
pub open spec fn apply_score(c: ChangeView, threshold: int) -> ChangeView {
    ChangeView { evaluation_score: Some(spec_evaluate(c, threshold).overall_score as u32), ..c }
}

/// Whether the policy keeps the change.
pub open spec fn policy_keeps(c: ChangeView, threshold: int) -> bool {
    spec_evaluate(c, threshold).should_keep
}

/// The ledger after an upsert of `c`.
pub open spec fn spec_upsert(l: Seq<ChangeView>, c: ChangeView) -> Seq<ChangeView> {
    if has_id(l, c.id) {
        l.update(choose|i: int| 0 <= i < l.len() && l[i].id == c.id, c)
    } else {
        l.push(c)
    }
}

/// One reported change identifier run through the policy: the ledger after,
/// and the rollback target if the change was rejected.  An identifier that
/// names no ledger entry changes nothing.
pub open spec fn policy_step(l: Seq<ChangeView>, id: Seq<char>, threshold: int) -> (
    Seq<ChangeView>,
    Seq<ChangeView>,
) {
    match find_change(l, id) {
        Some(c) => {
            let scored = apply_score(c, threshold);
            let l2 = spec_upsert(l, scored);
            if policy_keeps(c, threshold) {
                (l2, Seq::empty())
            } else {
                (l2, seq![scored])
            }
        },
        None => (l, Seq::empty()),
    }
}

/// All reported identifiers run through the policy in order: the final
/// ledger and the rollback targets collected along the way.
pub open spec fn policy_fold(l: Seq<ChangeView>, ids: Seq<Seq<char>>, threshold: int) -> (
    Seq<ChangeView>,
    Seq<ChangeView>,
)
    decreases ids.len(),
{
    if ids.len() == 0 {
        (l, Seq::<ChangeView>::empty())
    } else {
        let step = policy_step(l, ids.first(), threshold);
        let rest = policy_fold(step.0, ids.drop_first(), threshold);
        (rest.0, step.1 + rest.1)
    }
}

/// Every rollback target the policy collects carries a recorded score below
/// the threshold: rejection is always observable in the target itself.
pub proof fn lemma_policy_rollbacks_rejected(l: Seq<ChangeView>, ids: Seq<Seq<char>>, threshold: int)
    ensures
        forall|k: int|
            0 <= k < policy_fold(l, ids, threshold).1.len() ==> {
                let t = #[trigger] policy_fold(l, ids, threshold).1[k];
                &&& t.evaluation_score is Some
                &&& (t.evaluation_score->0 as int) < threshold
            },
    decreases ids.len(),
{
    if ids.len() != 0 {
        let step = policy_step(l, ids.first(), threshold);
        lemma_policy_rollbacks_rejected(step.0, ids.drop_first(), threshold);
        match find_change(l, ids.first()) {
            Some(c) => {
                if !policy_keeps(c, threshold) {
                    crate::evaluator::lemma_scores_in_range(crate::text::lower_of(c.after));
                    crate::evaluator::lemma_scores_in_range(c.after);
                    crate::evaluator::lemma_overall_range(
                        crate::evaluator::spec_aesthetic(crate::text::lower_of(c.after)),
                        crate::evaluator::spec_functionality(c.after),
                    );
                }
            },
            None => {},
        }
    }
}

/// How many of the reported identifiers the policy keeps: those that name
/// a ledger entry and score at or above the threshold.
pub open spec fn policy_kept(l: Seq<ChangeView>, ids: Seq<Seq<char>>, threshold: int) -> int
    decreases ids.len(),
{
    if ids.len() == 0 {
        0
    } else {
        let step = policy_step(l, ids.first(), threshold);
        (match find_change(l, ids.first()) {
            Some(c) => if policy_keeps(c, threshold) {
                1int
            } else {
                0int
            },
            None => 0int,
        }) + policy_kept(step.0, ids.drop_first(), threshold)
    }
}

/// Whether this agent's script makes it fail instead of reporting a
/// result.  Only a scripted agent can fail; the placeholder agents always
/// report.
pub open spec fn agent_fails(a: RegisteredAgent) -> bool {
    match a {
        RegisteredAgent::Scripted(s) => s.error is Some,
        _ => false,
    }
}

/// The change identifiers this agent reports for any task it completes.
pub open spec fn agent_reported(a: RegisteredAgent) -> Seq<Seq<char>> {
    match a {
        RegisteredAgent::Scripted(s) => s.changes.deep_view(),
        _ => Seq::empty(),
    }
}

/// The rolling state of one tick as it walks the registry: the queue's
/// pending and completed tasks, the ledger, the rollback targets
/// collected so far, the three counters, and whether any task was
/// dispatched yet.
#[verifier::ext_equal]
pub ghost struct TickState {
    pub pending: Seq<AgentTask>,
    pub completed: Seq<AgentTask>,
    pub ledger: Seq<ChangeView>,
    pub rollbacks: Seq<ChangeView>,
    pub executed: int,
    pub kept: int,
    pub rolled: int,
    pub active: bool,
}

/// What one registry bucket contributes to a tick.  A bucket with no
/// agents, or whose category has no pending task, contributes nothing.
/// Otherwise its category's next task is dequeued; a failing agent
/// consumes the task and nothing more; a reporting agent has the task
/// logged as completed, the counter advanced, and every reported change
/// run through the policy, with the rejected ones joining the rollback
/// targets.
pub open spec fn tick_step(b: AgentBucket, st: TickState, threshold: int) -> TickState {
    if b.agents@.len() == 0 {
        st
    } else if !crate::task_queue::has_match(st.pending, Some(b.agent_type)) {
        st
    } else {
        let i = crate::task_queue::pick_index(st.pending, Some(b.agent_type));
        let rest = st.pending.remove(i);
        if agent_fails(b.agents@[0]) {
            TickState { pending: rest, ..st }
        } else {
            let ids = agent_reported(b.agents@[0]);
            let folded = policy_fold(st.ledger, ids, threshold);
            TickState {
                pending: rest,
                completed: st.completed.push(st.pending[i]),
                ledger: folded.0,
                rollbacks: st.rollbacks + folded.1,
                executed: sat_add_spec(st.executed, 1),
                kept: sat_add_spec(st.kept, policy_kept(st.ledger, ids, threshold)),
                rolled: sat_add_spec(st.rolled, folded.1.len() as int),
                active: true,
            }
        }
    }
}

/// A whole tick: the registry's buckets folded over the state in order.
pub open spec fn tick_fold(buckets: Seq<AgentBucket>, st: TickState, threshold: int) -> TickState
    decreases buckets.len(),
{
    if buckets.len() == 0 {
        st
    } else {
        tick_fold(buckets.drop_first(), tick_step(buckets.first(), st, threshold), threshold)
    }
}

/// The orchestrator: the registry, the shared subsystems, the running
/// flag, and the statistics.
pub struct AgentOrchestrator {
    agents: Vec<AgentBucket>,
    version_control: VersionControl,
    evaluator: ChangeEvaluator,
    task_queue: TaskQueue,
    base_path: String,
    is_running: bool,
    stats: OrchestratorStats,
}

impl AgentOrchestrator {
    /// The registry, in registration order of categories.
    pub closed spec fn buckets(&self) -> Seq<AgentBucket> {
        self.agents@
    }

    /// The ledger.
    pub closed spec fn ledger(&self) -> VersionControl {
        self.version_control
    }

    /// The task queue.
    pub closed spec fn queue(&self) -> TaskQueue {
        self.task_queue
    }

    /// The policy in use.
    pub closed spec fn policy(&self) -> ChangeEvaluator {
        self.evaluator
    }

    /// The statistics.
    pub closed spec fn stats(&self) -> OrchestratorStats {
        self.stats
    }

    /// Whether the periodic loop is meant to run.
    pub closed spec fn running(&self) -> bool {
        self.is_running
    }

    /// The root handed to agents.
    pub closed spec fn base(&self) -> Seq<char> {
        self.base_path@
    }

    /// Categories are unique and the ledger is well formed.
    pub open spec fn wf(&self) -> bool {
        &&& buckets_wf(self.buckets())
        &&& self.ledger().wf()
    }

    /// A fresh orchestrator over `base_path`: empty registry, empty
    /// ledger, empty queue, zeroed statistics, not running.
    pub fn new(base_path: String) -> (o: AgentOrchestrator)
        ensures
            o.wf(),
            o.buckets() =~= Seq::<AgentBucket>::empty(),
            o.ledger().changes() =~= Seq::<ChangeView>::empty(),
            o.ledger().versions() =~= Seq::<VersionSnapshotView>::empty(),
            o.queue().pending() =~= Seq::<AgentTask>::empty(),
            o.queue().completed() =~= Seq::<AgentTask>::empty(),
            o.policy().threshold() == crate::evaluator::DEFAULT_SCORE_THRESHOLD,
            o.stats().total_tasks_executed == 0,
            o.stats().successful_changes == 0,
            o.stats().rolled_back_changes == 0,
            o.stats().rollback_failures == 0,
            o.stats().agents_active == 0,
            o.stats().last_activity is None,
            !o.running(),
            o.base() == base_path@,
    {
        let version_control = VersionControl::new(base_path.clone());
        let evaluator = ChangeEvaluator::new();
        let task_queue = TaskQueue::new();
        AgentOrchestrator {
            agents: Vec::new(),
            version_control,
            evaluator,
            task_queue,
            base_path,
            is_running: false,
            stats: OrchestratorStats::default(),
        }
    }

    /// Adds `agent` to its category's bucket, opening the bucket when the
    /// category is new, and recounts the active agents.
    pub fn register_agent(&mut self, agent: RegisteredAgent)
        requires
            old(self).wf(),
        ensures
            final(self).wf(),
            registered(old(self).buckets(), final(self).buckets(), agent),
            final(self).stats().agents_active == sat_inc_spec(old(self).stats().agents_active),
            final(self).stats().total_tasks_executed == old(self).stats().total_tasks_executed,
            final(self).stats().successful_changes == old(self).stats().successful_changes,
            final(self).stats().rolled_back_changes == old(self).stats().rolled_back_changes,
            final(self).stats().rollback_failures == old(self).stats().rollback_failures,
            final(self).stats().last_activity == old(self).stats().last_activity,
            final(self).ledger() == old(self).ledger(),
            final(self).queue() == old(self).queue(),
            final(self).policy() == old(self).policy(),
            final(self).running() == old(self).running(),
            final(self).base() == old(self).base(),
    {
        let ty = agent.agent_type();
        let n = self.agents.len();
        let mut i: usize = 0;
        while i < n
            invariant
                i <= n,
                n == self.agents@.len(),
                *self == *old(self),
                old(self).wf(),
                ty == agent.spec_type(),
                forall|j: int| 0 <= j < i ==> self.agents@[j].agent_type != ty,
            decreases n - i,
        {
            if self.agents[i].agent_type == ty {
                let ghost pre = self.agents@;
                let bucket = &mut self.agents[i];
                bucket.agents.push(agent);
                proof {
                    assert(self.agents@[i as int].agents@ == pre[i as int].agents@.push(agent));
                    assert forall|p: int, q: int|
                        0 <= p < q < self.agents@.len() implies #[trigger] self.agents@[p]
                        .agent_type != #[trigger] self.agents@[q].agent_type by {
                        assert(pre[p].agent_type == self.agents@[p].agent_type);
                        assert(pre[q].agent_type == self.agents@[q].agent_type);
                    }
                }
                self.stats.agents_active = sat_inc(self.stats.agents_active);
                return ;
            }
            i += 1;
        }
        let ghost pre = self.agents@;
        let mut fresh_agents: Vec<RegisteredAgent> = Vec::new();
        fresh_agents.push(agent);
        self.agents.push(AgentBucket { agent_type: ty, agents: fresh_agents });
        proof {
            assert(self.agents@.take(pre.len() as int) =~= pre);
            assert forall|p: int, q: int|
                0 <= p < q < self.agents@.len() implies #[trigger] self.agents@[p].agent_type
                != #[trigger] self.agents@[q].agent_type by {
                if q < pre.len() {
                    assert(pre[p].agent_type != pre[q].agent_type);
                } else {
                    assert(pre[p].agent_type != ty);
                }
            }
        }
        self.stats.agents_active = sat_inc(self.stats.agents_active);
    }

    /// Flags the periodic loop as running; the loop itself is driven by
    /// the caller, one [`Self::process_task_queue`] at a time.
    pub fn start_continuous_improvement(&mut self)
        ensures
            final(self).running(),
            final(self).buckets() == old(self).buckets(),
            final(self).ledger() == old(self).ledger(),
            final(self).queue() == old(self).queue(),
            final(self).policy() == old(self).policy(),
            final(self).stats() == old(self).stats(),
            final(self).base() == old(self).base(),
    {
        self.is_running = true;
    }

    /// Asks the periodic loop to stop at the next tick boundary.
    pub fn stop(&mut self)
        ensures
            !final(self).running(),
            final(self).buckets() == old(self).buckets(),
            final(self).ledger() == old(self).ledger(),
            final(self).queue() == old(self).queue(),
            final(self).policy() == old(self).policy(),
            final(self).stats() == old(self).stats(),
            final(self).base() == old(self).base(),
    {
        self.is_running = false;
    }

    /// Whether the periodic loop is meant to run.
    pub fn is_running(&self) -> (b: bool)
        ensures
            b == self.running(),
    {
        self.is_running
    }

    /// Emits one seed task per serviced category at its fixed priority.
    pub fn generate_improvement_tasks(&mut self)
        ensures
            final(self).queue().pending().len() == old(self).queue().pending().len() + 6,
            final(self).queue().pending().take(old(self).queue().pending().len() as int) == old(
                self,
            ).queue().pending(),
            seed_task(final(self).queue().pending()[old(self).queue().pending().len() as int],
                AgentType::PerformanceAgent, 7, "Optimize page load performance"@),
            seed_task(final(self).queue().pending()[old(self).queue().pending().len() as int + 1],
                AgentType::UIAgent, 6, "Improve user interface aesthetics"@),
            seed_task(final(self).queue().pending()[old(self).queue().pending().len() as int + 2],
                AgentType::ContentAgent, 5, "Update and enhance content"@),
            seed_task(final(self).queue().pending()[old(self).queue().pending().len() as int + 3],
                AgentType::FeatureAgent, 8, "Add new interactive features"@),
            seed_task(final(self).queue().pending()[old(self).queue().pending().len() as int + 4],
                AgentType::AccessibilityAgent, 6, "Enhance accessibility"@),
            seed_task(final(self).queue().pending()[old(self).queue().pending().len() as int + 5],
                AgentType::SEOAgent, 5, "Improve SEO optimization"@),
            final(self).queue().completed() == old(self).queue().completed(),
            final(self).buckets() == old(self).buckets(),
            final(self).ledger() == old(self).ledger(),
            final(self).policy() == old(self).policy(),
            final(self).stats() == old(self).stats(),
            final(self).running() == old(self).running(),
            final(self).base() == old(self).base(),
    {
        let t1 = Self::seed(AgentType::PerformanceAgent, 7, "Optimize page load performance");
        self.task_queue.add_task(t1);
        let t2 = Self::seed(AgentType::UIAgent, 6, "Improve user interface aesthetics");
        self.task_queue.add_task(t2);
        let t3 = Self::seed(AgentType::ContentAgent, 5, "Update and enhance content");
        self.task_queue.add_task(t3);
        let t4 = Self::seed(AgentType::FeatureAgent, 8, "Add new interactive features");
        self.task_queue.add_task(t4);
        let t5 = Self::seed(AgentType::AccessibilityAgent, 6, "Enhance accessibility");
        self.task_queue.add_task(t5);
        let t6 = Self::seed(AgentType::SEOAgent, 5, "Improve SEO optimization");
        self.task_queue.add_task(t6);
        proof {
            assert(final(self).queue().pending().take(old(self).queue().pending().len() as int)
                =~= old(self).queue().pending());
        }
    }

    /// Builds one seed task with a fresh identifier and the current time.
    fn seed(agent_type: AgentType, priority: u8, description: &str) -> (t: AgentTask)
        ensures
            seed_task(t, agent_type, priority as int, description@),
    {
        AgentTask {
            id: fresh_id(),
            agent_type,
            priority,
            description: description.to_owned(),
            target_file: None,
            parameters: Vec::new(),
            created_at: now_millis(),
        }
    }

    /// Runs every reported change identifier through the policy: fetches the
    /// ledger entry, evaluates it, writes the score back, counts a kept
    /// change as successful, and collects the scored entry as a rollback
    /// target when it is rejected.  Identifiers that name no entry are
    /// skipped.
    fn commit_agent_result(&mut self, result: &AgentResult) -> (rollbacks: Vec<Change>)
        requires
            old(self).wf(),
        ensures
            final(self).wf(),
            final(self).ledger().changes() == policy_fold(
                old(self).ledger().changes(),
                result.changes.deep_view(),
                old(self).policy().threshold(),
            ).0,
            rollbacks.deep_view() == policy_fold(
                old(self).ledger().changes(),
                result.changes.deep_view(),
                old(self).policy().threshold(),
            ).1,
            final(self).stats().rolled_back_changes == sat_add_spec(
                old(self).stats().rolled_back_changes as int,
                rollbacks@.len() as int,
            ),
            final(self).stats().successful_changes == sat_add_spec(
                old(self).stats().successful_changes as int,
                policy_kept(
                    old(self).ledger().changes(),
                    result.changes.deep_view(),
                    old(self).policy().threshold(),
                ),
            ),
            final(self).stats().total_tasks_executed == old(self).stats().total_tasks_executed,
            final(self).stats().rollback_failures == old(self).stats().rollback_failures,
            final(self).stats().agents_active == old(self).stats().agents_active,
            final(self).stats().last_activity == old(self).stats().last_activity,
            final(self).ledger().versions() == old(self).ledger().versions(),
            final(self).ledger().current() == old(self).ledger().current(),
            final(self).buckets() == old(self).buckets(),
            final(self).queue() == old(self).queue(),
            final(self).policy() == old(self).policy(),
            final(self).running() == old(self).running(),
            final(self).base() == old(self).base(),
    {
        let ghost pre_ledger = self.version_control.changes();
        let ghost ids = result.changes.deep_view();
        let ghost threshold = self.evaluator.threshold();
        let ghost pre_rolled = self.stats.rolled_back_changes;
        let ghost pre_kept = self.stats.successful_changes;
        let ghost mut kept_sofar: int = 0;
        let mut rollbacks: Vec<Change> = Vec::new();
        proof {
            assert(ids.skip(0) =~= ids);
            assert(rollbacks.deep_view() =~= Seq::<ChangeView>::empty());
            assert(Seq::<ChangeView>::empty() + policy_fold(pre_ledger, ids, threshold).1 =~= policy_fold(
                pre_ledger,
                ids,
                threshold,
            ).1);
        }
        let m = result.changes.len();
        let mut k: usize = 0;
        while k < m
            invariant
                k <= m,
                m == result.changes@.len(),
                ids == result.changes.deep_view(),
                threshold == self.evaluator.threshold(),
                self.wf(),
                policy_fold(self.version_control.changes(), ids.skip(k as int), threshold).0 == policy_fold(
                    pre_ledger,
                    ids,
                    threshold,
                ).0,
                rollbacks.deep_view() + policy_fold(
                    self.version_control.changes(),
                    ids.skip(k as int),
                    threshold,
                ).1 == policy_fold(pre_ledger, ids, threshold).1,
                self.stats.rolled_back_changes == sat_add_spec(
                    pre_rolled as int,
                    rollbacks@.len() as int,
                ),
                0 <= kept_sofar <= k,
                kept_sofar + policy_kept(self.version_control.changes(), ids.skip(k as int), threshold)
                    == policy_kept(pre_ledger, ids, threshold),
                self.stats.successful_changes == sat_add_spec(pre_kept as int, kept_sofar),
                self.stats.total_tasks_executed == old(self).stats().total_tasks_executed,
                self.stats.rollback_failures == old(self).stats().rollback_failures,
                self.stats.agents_active == old(self).stats().agents_active,
                self.stats.last_activity == old(self).stats().last_activity,
                self.version_control.versions() == old(self).ledger().versions(),
                self.version_control.current() == old(self).ledger().current(),
                self.agents@ == old(self).buckets(),
                self.task_queue == old(self).queue(),
                self.evaluator == old(self).policy(),
                self.is_running == old(self).running(),
                self.base_path@ == old(self).base(),
            decreases m - k,
        {
            let ghost cur = self.version_control.changes();
            let ghost rb_pre = rollbacks.deep_view();
            let ghost step = policy_step(cur, ids[k as int], threshold);
            proof {
                assert(ids.skip(k as int).first() == ids[k as int]);
                assert(ids.skip(k as int).drop_first() =~= ids.skip(k + 1));
                assert(ids[k as int] == result.changes@[k as int]@);
                assert(ids.skip(k as int).len() != 0);
                assert(policy_fold(cur, ids.skip(k as int), threshold).0 == policy_fold(
                    step.0,
                    ids.skip(k + 1),
                    threshold,
                ).0);
                assert(policy_fold(cur, ids.skip(k as int), threshold).1 == step.1 + policy_fold(
                    step.0,
                    ids.skip(k + 1),
                    threshold,
                ).1);
                assert(policy_kept(cur, ids.skip(k as int), threshold) == (match find_change(
                    cur,
                    ids[k as int],
                ) {
                    Some(c) => if policy_keeps(c, threshold) {
                        1int
                    } else {
                        0int
                    },
                    None => 0int,
                }) + policy_kept(step.0, ids.skip(k + 1), threshold));
            }
            let change_id = &result.changes[k];
            match self.version_control.get_change(change_id.as_str()) {
                Option::Some(fetched) => {
                    proof {
                        assert(find_change(cur, ids[k as int]) == Some(fetched@));
                    }
                    let evaluation = self.evaluator.evaluate_change(&fetched);
                    let mut updated = fetched.duplicate();
                    updated.evaluation_score = Some(evaluation.overall_score);
                    let ghost scored = apply_score(fetched@, threshold);
                    proof {
                        assert(updated@ =~= scored);
                    }
                    let _ = self.version_control.record_change(updated);
                    proof {
                        assert(scored.id == fetched@.id);
                        assert(fetched@.id == ids[k as int]);
                        assert(has_id(cur, scored.id));
                        let w = choose|i: int| 0 <= i < cur.len() && cur[i].id == scored.id;
                        assert(self.version_control.changes() == cur.update(w, scored));
                        assert(self.version_control.changes() == spec_upsert(cur, scored));
                        assert(self.version_control.changes() == step.0);
                    }
                    if !evaluation.should_keep {
                        proof {
                            assert(has_id(self.version_control.changes(), ids[k as int])) by {
                                let w2 = choose|i: int|
                                    0 <= i < cur.len() && cur[i].id == scored.id;
                                assert(self.version_control.changes()[w2].id == ids[k as int]);
                            }
                        }
                        match self.version_control.rollback_change(change_id.as_str()) {
                            Result::Ok(target) => {
                                rollbacks.push(target);
                                proof {
                                    assert(target@ == scored);
                                    assert(rollbacks.deep_view() =~= rb_pre.push(scored));
                                    assert(step.1 =~= seq![scored]);
                                    assert(rollbacks.deep_view() =~= rb_pre + step.1);
                                }
                                self.stats.rolled_back_changes = sat_inc(
                                    self.stats.rolled_back_changes,
                                );
                            },
                            Result::Err(_) => {
                                proof {
                                    assert(false);
                                }
                            },
                        }
                    } else {
                        self.stats.successful_changes = sat_inc(self.stats.successful_changes);
                        proof {
                            kept_sofar = kept_sofar + 1;
                            assert(policy_keeps(fetched@, threshold));
                            assert(step.1 =~= Seq::<ChangeView>::empty());
                            assert(rollbacks.deep_view() =~= rb_pre + step.1);
                        }
                    }
                },
                Option::None => {
                    proof {
                        assert(find_change(cur, ids[k as int]) is None);
                        assert(step.0 == cur);
                        assert(step.1 =~= Seq::<ChangeView>::empty());
                        assert(rollbacks.deep_view() =~= rb_pre + step.1);
                    }
                },
            }
            proof {
                assert(self.version_control.changes() == step.0);
                assert(rollbacks.deep_view() == rb_pre + step.1);
                assert((rb_pre + step.1) + policy_fold(step.0, ids.skip(k + 1), threshold).1 =~= rb_pre
                    + (step.1 + policy_fold(step.0, ids.skip(k + 1), threshold).1));
            }
            k += 1;
        }
        proof {
            assert(ids.skip(m as int) =~= Seq::<Seq<char>>::empty());
        }
        rollbacks
    }

    /// One pass over the registry, exactly [`tick_fold`] over the buckets
    /// in order: for each category with at least one agent, dequeues that
    /// category's next task and hands it to the first registered agent.
    /// A completed execution is logged and counted and every change it
    /// reported is scored; a failed execution only consumes the task, so
    /// the remaining categories still proceed.  The rollback targets of
    /// all rejected changes are handed back for the caller to restore.
    pub fn process_task_queue(&mut self) -> (rollbacks: Vec<Change>)
        requires
            old(self).wf(),
        ensures
            final(self).wf(),
            final(self).buckets() == old(self).buckets(),
            final(self).policy() == old(self).policy(),
            final(self).running() == old(self).running(),
            final(self).base() == old(self).base(),
            final(self).ledger().versions() == old(self).ledger().versions(),
            final(self).ledger().current() == old(self).ledger().current(),
            final(self).stats().agents_active == old(self).stats().agents_active,
            final(self).stats().rollback_failures == old(self).stats().rollback_failures,
            ({
                let end = tick_fold(
                    old(self).buckets(),
                    TickState {
                        pending: old(self).queue().pending(),
                        completed: old(self).queue().completed(),
                        ledger: old(self).ledger().changes(),
                        rollbacks: Seq::<ChangeView>::empty(),
                        executed: old(self).stats().total_tasks_executed as int,
                        kept: old(self).stats().successful_changes as int,
                        rolled: old(self).stats().rolled_back_changes as int,
                        active: false,
                    },
                    old(self).policy().threshold(),
                );
                &&& final(self).queue().pending() == end.pending
                &&& final(self).queue().completed() == end.completed
                &&& final(self).ledger().changes() == end.ledger
                &&& rollbacks.deep_view() == end.rollbacks
                &&& final(self).stats().total_tasks_executed as int == end.executed
                &&& final(self).stats().successful_changes as int == end.kept
                &&& final(self).stats().rolled_back_changes as int == end.rolled
                &&& end.active ==> final(self).stats().last_activity is Some
                &&& !end.active ==> final(self).stats().last_activity == old(
                    self,
                ).stats().last_activity
            }),
            forall|k: int|
                0 <= k < rollbacks.deep_view().len() ==> {
                    let t = #[trigger] rollbacks.deep_view()[k];
                    &&& t.evaluation_score is Some
                    &&& (t.evaluation_score->0 as int) < old(self).policy().threshold()
                },
    {
        let ghost threshold = self.evaluator.threshold();
        let ghost init = TickState {
            pending: self.task_queue.pending(),
            completed: self.task_queue.completed(),
            ledger: self.version_control.changes(),
            rollbacks: Seq::<ChangeView>::empty(),
            executed: self.stats.total_tasks_executed as int,
            kept: self.stats.successful_changes as int,
            rolled: self.stats.rolled_back_changes as int,
            active: false,
        };
        let mut rollbacks: Vec<Change> = Vec::new();
        let ghost mut active_g: bool = false;
        proof {
            assert(old(self).buckets().skip(0) =~= old(self).buckets());
            assert(rollbacks.deep_view() =~= Seq::<ChangeView>::empty());
        }
        let n = self.agents.len();
        let mut bi: usize = 0;
        while bi < n
            invariant
                bi <= n,
                n == self.agents@.len(),
                threshold == old(self).policy().threshold(),
                threshold == self.evaluator.threshold(),
                self.wf(),
                self.agents@ == old(self).buckets(),
                self.evaluator == old(self).policy(),
                self.is_running == old(self).running(),
                self.base_path@ == old(self).base(),
                self.version_control.versions() == old(self).ledger().versions(),
                self.version_control.current() == old(self).ledger().current(),
                self.stats.agents_active == old(self).stats().agents_active,
                self.stats.rollback_failures == old(self).stats().rollback_failures,
                tick_fold(
                    old(self).buckets().skip(bi as int),
                    TickState {
                        pending: self.task_queue.pending(),
                        completed: self.task_queue.completed(),
                        ledger: self.version_control.changes(),
                        rollbacks: rollbacks.deep_view(),
                        executed: self.stats.total_tasks_executed as int,
                        kept: self.stats.successful_changes as int,
                        rolled: self.stats.rolled_back_changes as int,
                        active: active_g,
                    },
                    threshold,
                ) == tick_fold(old(self).buckets(), init, threshold),
                active_g ==> self.stats.last_activity is Some,
                !active_g ==> self.stats.last_activity == old(self).stats().last_activity,
                forall|k: int|
                    0 <= k < rollbacks.deep_view().len() ==> {
                        let t = #[trigger] rollbacks.deep_view()[k];
                        &&& t.evaluation_score is Some
                        &&& (t.evaluation_score->0 as int) < old(self).policy().threshold()
                    },
            decreases n - bi,
        {
            let ghost st0 = TickState {
                pending: self.task_queue.pending(),
                completed: self.task_queue.completed(),
                ledger: self.version_control.changes(),
                rollbacks: rollbacks.deep_view(),
                executed: self.stats.total_tasks_executed as int,
                kept: self.stats.successful_changes as int,
                rolled: self.stats.rolled_back_changes as int,
                active: active_g,
            };
            let ghost b = old(self).buckets()[bi as int];
            proof {
                assert(self.agents@[bi as int] == b);
                assert(old(self).buckets().skip(bi as int).len() != 0);
                assert(old(self).buckets().skip(bi as int).first() == b);
                assert(old(self).buckets().skip(bi as int).drop_first() =~= old(
                    self,
                ).buckets().skip(bi + 1));
                assert(tick_fold(old(self).buckets().skip(bi as int), st0, threshold) == tick_fold(
                    old(self).buckets().skip(bi + 1),
                    tick_step(b, st0, threshold),
                    threshold,
                ));
            }
            let has_agents = self.agents[bi].agents.len() > 0;
            if has_agents {
                let ty = self.agents[bi].agent_type;
                proof {
                    assert(ty == b.agent_type);
                    assert(b.agents@.len() > 0);
                }
                let next = self.task_queue.get_next_task(Some(ty));
                match next {
                    Option::Some(task) => {
                        proof {
                            crate::task_queue::lemma_dequeued_unique(
                                st0.pending,
                                self.task_queue.pending(),
                                Some(ty),
                                task,
                            );
                        }
                        let outcome = self.agents[bi].agents[0].execute_task(
                            &task,
                            self.base_path.as_str(),
                        );
                        match outcome {
                            Result::Ok(result) => {
                                proof {
                                    assert(!agent_fails(b.agents@[0]));
                                    assert(result.changes.deep_view() =~= agent_reported(
                                        b.agents@[0],
                                    ));
                                }
                                self.task_queue.mark_completed(task);
                                self.stats.total_tasks_executed = sat_inc(
                                    self.stats.total_tasks_executed,
                                );
                                self.stats.last_activity = Some(now_millis());
                                proof {
                                    active_g = true;
                                }
                                let ghost pre_ledger = self.version_control.changes();
                                let ghost pre_rb = rollbacks.deep_view();
                                let mut fresh = self.commit_agent_result(&result);
                                let ghost fresh_deep = fresh.deep_view();
                                proof {
                                    lemma_policy_rollbacks_rejected(
                                        pre_ledger,
                                        result.changes.deep_view(),
                                        threshold,
                                    );
                                }
                                rollbacks.append(&mut fresh);
                                proof {
                                    assert(rollbacks.deep_view() =~= pre_rb + fresh_deep);
                                    assert(TickState {
                                        pending: self.task_queue.pending(),
                                        completed: self.task_queue.completed(),
                                        ledger: self.version_control.changes(),
                                        rollbacks: rollbacks.deep_view(),
                                        executed: self.stats.total_tasks_executed as int,
                                        kept: self.stats.successful_changes as int,
                                        rolled: self.stats.rolled_back_changes as int,
                                        active: active_g,
                                    } =~~= tick_step(b, st0, threshold));
                                }
                            },
                            Result::Err(_) => {
                                proof {
                                    assert(agent_fails(b.agents@[0]));
                                    assert(TickState {
                                        pending: self.task_queue.pending(),
                                        completed: self.task_queue.completed(),
                                        ledger: self.version_control.changes(),
                                        rollbacks: rollbacks.deep_view(),
                                        executed: self.stats.total_tasks_executed as int,
                                        kept: self.stats.successful_changes as int,
                                        rolled: self.stats.rolled_back_changes as int,
                                        active: active_g,
                                    } =~~= tick_step(b, st0, threshold));
                                }
                            },
                        }
                    },
                    Option::None => {
                        proof {
                            assert(!crate::task_queue::has_match(st0.pending, Some(ty))) by {
                                if crate::task_queue::has_match(st0.pending, Some(ty)) {
                                    let j = choose|j: int|
                                        0 <= j < st0.pending.len()
                                            && crate::task_queue::matches_filter(
                                            st0.pending[j],
                                            Some(ty),
                                        );
                                    assert(!crate::task_queue::matches_filter(
                                        st0.pending[j],
                                        Some(ty),
                                    ));
                                }
                            }
                            assert(tick_step(b, st0, threshold) == st0);
                        }
                    },
                }
            } else {
                proof {
                    assert(b.agents@.len() == 0);
                    assert(tick_step(b, st0, threshold) == st0);
                }
            }
            proof {
                assert(tick_fold(
                    old(self).buckets().skip(bi + 1),
                    TickState {
                        pending: self.task_queue.pending(),
                        completed: self.task_queue.completed(),
                        ledger: self.version_control.changes(),
                        rollbacks: rollbacks.deep_view(),
                        executed: self.stats.total_tasks_executed as int,
                        kept: self.stats.successful_changes as int,
                        rolled: self.stats.rolled_back_changes as int,
                        active: active_g,
                    },
                    threshold,
                ) == tick_fold(old(self).buckets(), init, threshold));
            }
            bi += 1;
        }
        proof {
            assert(old(self).buckets().skip(n as int) =~= Seq::<AgentBucket>::empty());
        }
        rollbacks
    }

    /// The ledger's rollback target for `change_id`: the entry whose
    /// before snapshot the caller must restore.  The ledger itself is not
    /// touched.
    pub fn rollback_change(&self, change_id: &str) -> (r: Result<Change, String>)
        requires
            self.wf(),
        ensures
            r is Ok <==> has_id(self.ledger().changes(), change_id@),
            r is Ok ==> find_change(self.ledger().changes(), change_id@) == Some(r->Ok_0@),
            r is Err ==> r->Err_0@ == "Change "@ + change_id@ + " not found"@,
    {
        self.version_control.rollback_change(change_id)
    }

    /// Counts one rollback whose file restoration failed: the ledger keeps
    /// the rejected score, the file stays un-restored, and this counter is
    /// how that inconsistency stays observable.  The caller performing the
    /// restoration reports the failure here.
    pub fn record_rollback_failure(&mut self)
        ensures
            final(self).stats().rollback_failures == sat_inc_spec(
                old(self).stats().rollback_failures,
            ),
            final(self).stats().total_tasks_executed == old(self).stats().total_tasks_executed,
            final(self).stats().successful_changes == old(self).stats().successful_changes,
            final(self).stats().rolled_back_changes == old(self).stats().rolled_back_changes,
            final(self).stats().agents_active == old(self).stats().agents_active,
            final(self).stats().last_activity == old(self).stats().last_activity,
            final(self).buckets() == old(self).buckets(),
            final(self).ledger() == old(self).ledger(),
            final(self).queue() == old(self).queue(),
            final(self).policy() == old(self).policy(),
            final(self).running() == old(self).running(),
            final(self).base() == old(self).base(),
    {
        self.stats.rollback_failures = sat_inc(self.stats.rollback_failures);
    }

    /// A copy of the current statistics.
    pub fn get_stats(&self) -> (s: OrchestratorStats)
        ensures
            s == self.stats(),
    {
        self.stats
    }

    /// The ledger, for reading.
    pub fn get_version_control(&self) -> (v: &VersionControl)
        ensures
            *v == self.ledger(),
    {
        &self.version_control
    }

    /// The ledger, for recording changes on an agent's behalf.
    pub fn get_version_control_mut(&mut self) -> (v: &mut VersionControl)
        ensures
            *v == old(self).ledger(),
            final(self).ledger() == *final(v),
            final(self).buckets() == old(self).buckets(),
            final(self).queue() == old(self).queue(),
            final(self).policy() == old(self).policy(),
            final(self).stats() == old(self).stats(),
            final(self).running() == old(self).running(),
            final(self).base() == old(self).base(),
    {
        &mut self.version_control
    }

    /// The task queue, for reading.
    pub fn get_task_queue(&self) -> (q: &TaskQueue)
        ensures
            *q == self.queue(),
    {
        &self.task_queue
    }

    /// The task queue, for enqueuing work from outside.
    pub fn get_task_queue_mut(&mut self) -> (q: &mut TaskQueue)
        ensures
            *q == old(self).queue(),
            final(self).queue() == *final(q),
            final(self).buckets() == old(self).buckets(),
            final(self).ledger() == old(self).ledger(),
            final(self).policy() == old(self).policy(),
            final(self).stats() == old(self).stats(),
            final(self).running() == old(self).running(),
            final(self).base() == old(self).base(),
    {
        &mut self.task_queue
    }
}

/// A seed task of the tick's auto-demand generator: the given category,
/// priority and description, no target file, no parameters, and a fresh
/// 36-character identifier.
pub open spec fn seed_task(t: AgentTask, agent_type: AgentType, priority: int, description: Seq<char>) -> bool {
    &&& t.agent_type == agent_type
    &&& t.priority as int == priority
    &&& t.description@ == description
    &&& t.target_file is None
    &&& t.parameters@.len() == 0
    &&& t.id@.len() == 36
}

} // verus!
