//! The prioritized task queue: highest priority first, ties broken by the
//! earliest creation time, with an optional category filter that leaves the
//! tasks it skips untouched.

use vstd::prelude::*;
use crate::agents::AgentTask;
use crate::agents::AgentType;

verus! {

/// `a` is dequeued strictly ahead of `b`: higher priority wins, and among
/// equal priorities the earlier creation time wins.
pub open spec fn precedes(a: AgentTask, b: AgentTask) -> bool {
    ||| a.priority > b.priority
    ||| (a.priority == b.priority && a.created_at < b.created_at)
}

/// Whether `t` passes an optional category filter.
pub open spec fn matches_filter(t: AgentTask, filter: Option<AgentType>) -> bool {
    match filter {
        Option::None => true,
        Option::Some(ft) => t.agent_type == ft,
    }
}

/// What a successful dequeue did: the task stood at position `i`, it was
/// removed and nothing else moved, no matching task precedes it, and it
/// strictly precedes every matching task that stood before it.
pub open spec fn dequeue_at(
    pre: Seq<AgentTask>,
    post: Seq<AgentTask>,
    filter: Option<AgentType>,
    t: AgentTask,
    i: int,
) -> bool {
    &&& 0 <= i < pre.len()
    &&& pre[i] == t
    &&& matches_filter(t, filter)
    &&& post == pre.remove(i)
    &&& forall|j: int|
        0 <= j < pre.len() && matches_filter(#[trigger] pre[j], filter) ==> !precedes(pre[j], t)
    &&& forall|j: int|
        0 <= j < i && matches_filter(#[trigger] pre[j], filter) ==> precedes(t, pre[j])
}

/// Some pending task passes the filter.
pub open spec fn has_match(pending: Seq<AgentTask>, filter: Option<AgentType>) -> bool {
    exists|j: int| 0 <= j < pending.len() && matches_filter(#[trigger] pending[j], filter)
}

/// `i` is the position a dequeue takes: it matches the filter, no
/// matching task precedes it, and it strictly precedes every matching
/// task standing before it.
pub open spec fn first_optimal(pending: Seq<AgentTask>, filter: Option<AgentType>, i: int) -> bool {
    &&& 0 <= i < pending.len()
    &&& matches_filter(pending[i], filter)
    &&& forall|j: int|
        0 <= j < pending.len() && matches_filter(#[trigger] pending[j], filter) ==> !precedes(
            pending[j],
            pending[i],
        )
    &&& forall|j: int|
        0 <= j < i && matches_filter(#[trigger] pending[j], filter) ==> precedes(
            pending[i],
            pending[j],
        )
}

/// The position a dequeue takes, when some task matches the filter.
pub open spec fn pick_index(pending: Seq<AgentTask>, filter: Option<AgentType>) -> int {
    choose|i: int| first_optimal(pending, filter, i)
}

/// At most one position can be taken by a dequeue.
pub proof fn lemma_first_optimal_unique(
    pending: Seq<AgentTask>,
    filter: Option<AgentType>,
    i1: int,
    i2: int,
)
    requires
        first_optimal(pending, filter, i1),
        first_optimal(pending, filter, i2),
    ensures
        i1 == i2,
{
    if i1 < i2 {
        assert(precedes(pending[i2], pending[i1]));
        assert(!precedes(pending[i2], pending[i1]));
    }
    if i2 < i1 {
        assert(precedes(pending[i1], pending[i2]));
        assert(!precedes(pending[i1], pending[i2]));
    }
}

/// A successful dequeue is a function of the queue and the filter: the
/// task returned and the queue left behind are exactly the ones at the
/// unique first-optimal position.
pub proof fn lemma_dequeued_unique(
    pre: Seq<AgentTask>,
    post: Seq<AgentTask>,
    filter: Option<AgentType>,
    t: AgentTask,
)
    requires
        dequeued(pre, post, filter, t),
    ensures
        has_match(pre, filter),
        first_optimal(pre, filter, pick_index(pre, filter)),
        t == pre[pick_index(pre, filter)],
        post == pre.remove(pick_index(pre, filter)),
{
    let i0 = choose|i: int| dequeue_at(pre, post, filter, t, i);
    assert(dequeue_at(pre, post, filter, t, i0));
    assert(first_optimal(pre, filter, i0));
    let w = pick_index(pre, filter);
    assert(first_optimal(pre, filter, w));
    lemma_first_optimal_unique(pre, filter, i0, w);
}

/// What a successful dequeue did, with the position abstracted away.
pub open spec fn dequeued(
    pre: Seq<AgentTask>,
    post: Seq<AgentTask>,
    filter: Option<AgentType>,
    t: AgentTask,
) -> bool {
    exists|i: int| dequeue_at(pre, post, filter, t, i)
}

/// A queue of pending tasks plus a log of completed ones.
pub struct TaskQueue {
    tasks: Vec<AgentTask>,
    completed_tasks: Vec<AgentTask>,
}

impl TaskQueue {
    /// The pending tasks, in insertion order.
    pub closed spec fn pending(&self) -> Seq<AgentTask> {
        self.tasks@
    }

    /// The completed-task log, in completion order.
    pub closed spec fn completed(&self) -> Seq<AgentTask> {
        self.completed_tasks@
    }

    /// An empty queue.
    pub fn new() -> (q: TaskQueue)
        ensures
            q.pending() == Seq::<AgentTask>::empty(),
            q.completed() == Seq::<AgentTask>::empty(),
    {
        TaskQueue { tasks: Vec::new(), completed_tasks: Vec::new() }
    }

    /// Inserts `task` unconditionally; nothing else moves.
    pub fn add_task(&mut self, task: AgentTask)
        ensures
            final(self).pending() == old(self).pending().push(task),
            final(self).completed() == old(self).completed(),
    {
        self.tasks.push(task);
    }

    /// Removes and returns the pending task that every other matching task
    /// yields to: maximum priority, ties broken by earliest creation time,
    /// and among equal keys the one inserted first.  With a filter, only
    /// tasks of that category are considered, and the tasks that are passed
    /// over keep their relative order.  Returns `None`, touching nothing,
    /// when no task matches.
    pub fn get_next_task(&mut self, agent_type: Option<AgentType>) -> (r: Option<AgentTask>)
        ensures
            r is None ==> final(self).pending() == old(self).pending()
                && (forall|j: int|
                    0 <= j < old(self).pending().len()
                        ==> !matches_filter(#[trigger] old(self).pending()[j], agent_type)),
            r is Some ==> matches_filter(r->0, agent_type),
            r is Some ==> dequeued(old(self).pending(), final(self).pending(), agent_type, r->0),
            final(self).completed() == old(self).completed(),
    {
        let mut best: Option<usize> = None;
        let mut i: usize = 0;
        while i < self.tasks.len()
            invariant
                i <= self.tasks.len(),
                *self == *old(self),
                match best {
                    Option::None => forall|j: int|
                        0 <= j < i ==> !matches_filter(#[trigger] self.tasks@[j], agent_type),
                    Option::Some(b) => {
                        &&& b < i
                        &&& matches_filter(self.tasks@[b as int], agent_type)
                        &&& forall|j: int|
                            0 <= j < i && matches_filter(#[trigger] self.tasks@[j], agent_type)
                                ==> !precedes(self.tasks@[j], self.tasks@[b as int])
                        &&& forall|j: int|
                            0 <= j < b && matches_filter(#[trigger] self.tasks@[j], agent_type)
                                ==> precedes(self.tasks@[b as int], self.tasks@[j])
                    },
                },
            decreases self.tasks.len() - i,
        {
            let candidate = &self.tasks[i];
            let candidate_matches = match agent_type {
                Option::None => true,
                Option::Some(ft) => candidate.agent_type == ft,
            };
            if candidate_matches {
                match best {
                    Option::None => {
                        best = Some(i);
                    },
                    Option::Some(b) => {
                        let held = &self.tasks[b];
                        let candidate_precedes = candidate.priority > held.priority
                            || (candidate.priority == held.priority && candidate.created_at
                                < held.created_at);
                        if candidate_precedes {
                            best = Some(i);
                        }
                    },
                }
            }
            i += 1;
        }
        match best {
            Option::None => None,
            Option::Some(b) => {
                let task = self.tasks.remove(b);
                proof {
                    assert(dequeued(old(self).pending(), self.pending(), agent_type, task)) by {
                        assert(dequeue_at(
                            old(self).pending(),
                            self.pending(),
                            agent_type,
                            task,
                            b as int,
                        ));
                    }
                }
                Some(task)
            },
        }
    }

    /// Appends `task` to the completed log; the log is never deduplicated.
    pub fn mark_completed(&mut self, task: AgentTask)
        ensures
            final(self).pending() == old(self).pending(),
            final(self).completed() == old(self).completed().push(task),
    {
        self.completed_tasks.push(task);
    }

    /// How many tasks are pending.
    pub fn get_queue_size(&self) -> (n: usize)
        ensures
            n == self.pending().len(),
    {
        self.tasks.len()
    }

    /// How many tasks have been completed since the log was last cleared.
    pub fn get_completed_count(&self) -> (n: usize)
        ensures
            n == self.completed().len(),
    {
        self.completed_tasks.len()
    }

    /// Empties the completed-task log.
    pub fn clear_completed(&mut self)
        ensures
            final(self).pending() == old(self).pending(),
            final(self).completed() == Seq::<AgentTask>::empty(),
    {
        self.completed_tasks.clear();
    }
}

impl Default for TaskQueue {
    /// The same empty queue that [`TaskQueue::new`] builds.
    fn default() -> (q: TaskQueue)
        ensures
            q.pending() == Seq::<AgentTask>::empty(),
            q.completed() == Seq::<AgentTask>::empty(),
    {
        TaskQueue::new()
    }
}

} // verus!
