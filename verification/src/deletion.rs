//! Deletion tasks, their priority, and the queue that workers draw from.

use vstd::prelude::*;
use std::collections::VecDeque;
use crate::entry::DeletionStatus;

verus! {

/// How many workers delete at a time unless told otherwise.
pub const DEFAULT_WORKERS: usize = 4;

/// How urgent a deletion is: small directories go first.
#[derive(Debug, Clone, Copy, PartialEq, Eq, PartialOrd, Ord, Structural)]
pub enum DeletionPriority {
    /// Up to 1 MiB.
    Small,
    /// Up to 100 MiB.
    Medium,
    /// Up to 1 GiB.
    Large,
    /// More than 1 GiB.
    Huge,
}

impl DeletionPriority {
    /// The place of the priority in the order: 0 for `Small` up to 3 for
    /// `Huge`.
    pub open spec fn level(self) -> nat {
        match self {
            DeletionPriority::Small => 0,
            DeletionPriority::Medium => 1,
            DeletionPriority::Large => 2,
            DeletionPriority::Huge => 3,
        }
    }

    /// The place of the priority in the order, as a number.
    pub fn rank(&self) -> (level: u8)
        ensures
            level == self.level(),
    {
        match self {
            DeletionPriority::Small => 0,
            DeletionPriority::Medium => 1,
            DeletionPriority::Large => 2,
            DeletionPriority::Huge => 3,
        }
    }
}

/// The priority of a directory of `size` bytes.
pub open spec fn priority_of(size: u64) -> DeletionPriority {
    if size <= 1_048_576 {
        DeletionPriority::Small
    } else if size <= 104_857_600 {
        DeletionPriority::Medium
    } else if size <= 1_073_741_824 {
        DeletionPriority::Large
    } else {
        DeletionPriority::Huge
    }
}

/// The priority with which a directory of `size` bytes is deleted.
pub fn get_deletion_priority(size: u64) -> (priority: DeletionPriority)
    ensures
        priority == priority_of(size),
{
    if size <= 1_048_576 {
        DeletionPriority::Small
    } else if size <= 104_857_600 {
        DeletionPriority::Medium
    } else if size <= 1_073_741_824 {
        DeletionPriority::Large
    } else {
        DeletionPriority::Huge
    }
}

/// One directory to delete.
#[derive(Debug, Clone)]
pub struct DeletionTask {
    /// The entry's index in the list.
    pub index: usize,
    pub path: String,
    pub priority: DeletionPriority,
    /// The entry's size when the task was made.
    pub size: u64,
}

/// How the deletion of one directory ended.
#[derive(Debug)]
pub struct DeletionResult {
    pub index: usize,
    pub path: String,
    pub success: bool,
    pub error: Option<String>,
}

/// What deletions in the background report.
#[derive(Debug)]
pub enum DeletionMessage {
    StartSingle { index: usize, path: String },
    StartMultiple { indices: Vec<usize>, paths: Vec<String> },
    Progress { index: usize, status: DeletionStatus },
    Complete { results: Vec<DeletionResult> },
}

impl DeletionResult {
    /// The result of removing the directory of entry `index`: a success
    /// without a failure, else the failure with its message.
    pub fn of(index: usize, path: String, failure: Option<String>) -> (result: Self)
        ensures
            result == (DeletionResult { index, path, success: failure is None, error: failure }),
    {
        let success: bool = failure.is_none();
        DeletionResult { index, path, success, error: failure }
    }
}

/// What a worker reports when it takes a task up: the entry is being
/// deleted.
pub fn announce(task: &DeletionTask) -> (message: DeletionMessage)
    ensures
        message == (DeletionMessage::Progress {
            index: task.index,
            status: DeletionStatus::Deleting,
        }),
{
    DeletionMessage::Progress { index: task.index, status: DeletionStatus::Deleting }
}

/// What a worker reports when it is done with a task: the one result, a
/// success unless the removal failed.
pub fn conclude(task: DeletionTask, failure: Option<String>) -> (message: DeletionMessage)
    ensures
        message matches DeletionMessage::Complete { results } && results@ == seq![
            DeletionResult {
                index: task.index,
                path: task.path,
                success: failure is None,
                error: failure,
            },
        ],
{
    let mut results: Vec<DeletionResult> = Vec::new();
    results.push(DeletionResult::of(task.index, task.path, failure));
    assert(results@ =~= seq![
        DeletionResult {
            index: task.index,
            path: task.path,
            success: failure is None,
            error: failure,
        },
    ]);
    DeletionMessage::Complete { results }
}

/// The state of a batch of deletions under way.
pub struct DeletionProgress {
    pub total_items: usize,
    pub completed_items: usize,
    pub current_path: String,
    pub deleted_paths: Vec<String>,
    pub errors: Vec<String>,
    /// Bytes freed by this batch so far.
    pub freed_space: u64,
    /// Bytes freed in the session before this batch began.
    pub freed_space_this_session: u64,
}

/// How many tasks at the front of `queue` are at most as urgent as `level`
/// asks: the place where a new task of that level goes in.
pub open spec fn place_for(queue: Seq<DeletionTask>, level: nat) -> nat
    decreases queue.len(),
{
    if queue.len() > 0 && queue[0].priority.level() <= level {
        1 + place_for(queue.skip(1), level)
    } else {
        0
    }
}

/// The queue with `task` added: before the first task of a strictly larger
/// priority, so behind every task of its own.
pub open spec fn enqueued(queue: Seq<DeletionTask>, task: DeletionTask) -> Seq<DeletionTask> {
    queue.insert(place_for(queue, task.priority.level()) as int, task)
}

/// The queue with the first `count` of `tasks` added, one after another.
pub open spec fn enqueued_all(queue: Seq<DeletionTask>, tasks: Seq<DeletionTask>, count: nat) -> Seq<
    DeletionTask,
>
    decreases count,
{
    if count == 0 || count > tasks.len() {
        queue
    } else {
        enqueued(enqueued_all(queue, tasks, (count - 1) as nat), tasks[count - 1])
    }
}

/// Whether the tasks stand in order of priority, smallest first.
pub open spec fn in_priority_order(queue: Seq<DeletionTask>) -> bool {
    forall|i: int, j: int|
        0 <= i <= j < queue.len() ==> (#[trigger] queue[i]).priority.level() <= (
        #[trigger] queue[j]).priority.level()
}

/// A place before which every task is at most as urgent as `level` asks and
/// at which a less urgent task stands, or the queue ends, is the place for a
/// task of that level.
pub proof fn lemma_place_for(queue: Seq<DeletionTask>, level: nat, k: int)
    requires
        0 <= k <= queue.len(),
        forall|i: int| 0 <= i < k ==> (#[trigger] queue[i]).priority.level() <= level,
        k < queue.len() ==> queue[k].priority.level() > level,
    ensures
        place_for(queue, level) == k,
    decreases k,
{
    if k > 0 {
        let rest = queue.skip(1);
        assert forall|i: int| 0 <= i < k - 1 implies (#[trigger] rest[i]).priority.level()
            <= level by {
            assert(rest[i] == queue[i + 1]);
        }
        lemma_place_for(rest, level, k - 1);
    }
}

/// Every task before the place is at most as urgent as `level`; the task at
/// the place, if there is one, is strictly less urgent.
pub proof fn lemma_place_for_splits(queue: Seq<DeletionTask>, level: nat)
    ensures
        place_for(queue, level) <= queue.len(),
        forall|i: int|
            0 <= i < place_for(queue, level) ==> (#[trigger] queue[i]).priority.level() <= level,
        place_for(queue, level) < queue.len() ==> queue[place_for(
            queue,
            level,
        ) as int].priority.level() > level,
    decreases queue.len(),
{
    if queue.len() > 0 && queue[0].priority.level() <= level {
        let rest = queue.skip(1);
        lemma_place_for_splits(rest, level);
        assert forall|i: int| 0 <= i < place_for(queue, level) implies (
        #[trigger] queue[i]).priority.level() <= level by {
            if i > 0 {
                assert(queue[i] == rest[i - 1]);
            }
        }
        if place_for(queue, level) < queue.len() {
            assert(queue[place_for(queue, level) as int] == rest[place_for(rest, level) as int]);
        }
    }
}

/// The pool of deletion workers as the queue sees it: the tasks that wait,
/// how many are being worked on, and how many workers there are.
pub struct DeletionThreadPool {
    pub work_queue: VecDeque<DeletionTask>,
    pub active_tasks: usize,
    pub max_workers: usize,
}

impl DeletionThreadPool {
    /// The waiting tasks stand in order of priority and no more tasks are
    /// active than there are workers.
    pub open spec fn wf(&self) -> bool {
        &&& in_priority_order(self.work_queue@)
        &&& self.active_tasks <= self.max_workers
    }

    /// A pool of `max_workers` workers with nothing to do.
    pub fn new(max_workers: usize) -> (pool: Self)
        ensures
            pool.work_queue@ == Seq::<DeletionTask>::empty(),
            pool.active_tasks == 0,
            pool.max_workers == max_workers,
            pool.wf(),
    {
        DeletionThreadPool { work_queue: VecDeque::new(), active_tasks: 0, max_workers }
    }

    /// Adds a task to the queue: before the first waiting task of a strictly
    /// larger priority, and so behind all waiting tasks of its own priority.
    pub fn add_task(&mut self, task: DeletionTask)
        ensures
            final(self).work_queue@ == enqueued(old(self).work_queue@, task),
            final(self).active_tasks == old(self).active_tasks,
            final(self).max_workers == old(self).max_workers,
            old(self).wf() ==> final(self).wf(),
    {
        let level: u8 = task.priority.rank();
        let mut at: usize = 0;
        while at < self.work_queue.len() && self.work_queue[at].priority.rank() <= level
            invariant
                at <= self.work_queue@.len(),
                *self == *old(self),
                forall|i: int|
                    0 <= i < at ==> (#[trigger] self.work_queue@[i]).priority.level() <= level,
            decreases self.work_queue@.len() - at,
        {
            at += 1;
        }
        proof {
            lemma_place_for(self.work_queue@, level as nat, at as int);
            if self.wf() {
                lemma_enqueued_keeps_order(self.work_queue@, task);
            }
        }
        self.work_queue.insert(at, task);
    }

    /// Hands the most urgent waiting task to a worker, if a worker is free
    /// and a task waits, and counts it as active.
    pub fn take_task(&mut self) -> (task: Option<DeletionTask>)
        ensures
            final(self).max_workers == old(self).max_workers,
            old(self).wf() ==> final(self).wf(),
            if old(self).work_queue@.len() > 0 && old(self).active_tasks < old(self).max_workers {
                &&& task == Some(old(self).work_queue@[0])
                &&& final(self).work_queue@ == old(self).work_queue@.skip(1)
                &&& final(self).active_tasks == old(self).active_tasks + 1
            } else {
                &&& task is None
                &&& final(self).work_queue@ == old(self).work_queue@
                &&& final(self).active_tasks == old(self).active_tasks
            },
    {
        if self.active_tasks < self.max_workers {
            let task = self.work_queue.pop_front();
            if task.is_some() {
                self.active_tasks = self.active_tasks + 1;
                proof {
                    let before = old(self).work_queue@;
                    let after = self.work_queue@;
                    assert(after =~= before.skip(1));
                    if in_priority_order(before) {
                        assert forall|i: int, j: int| 0 <= i <= j < after.len() implies (
                        #[trigger] after[i]).priority.level() <= (
                        #[trigger] after[j]).priority.level() by {
                            assert(after[i] == before[i + 1]);
                            assert(after[j] == before[j + 1]);
                        }
                    }
                }
            }
            task
        } else {
            None
        }
    }

    /// Counts one active task as done.
    pub fn finish_task(&mut self)
        ensures
            final(self).work_queue@ == old(self).work_queue@,
            final(self).max_workers == old(self).max_workers,
            final(self).active_tasks == if old(self).active_tasks > 0 {
                (old(self).active_tasks - 1) as usize
            } else {
                0usize
            },
            old(self).wf() ==> final(self).wf(),
    {
        if self.active_tasks > 0 {
            self.active_tasks = self.active_tasks - 1;
        }
    }

    /// The number of tasks being worked on.
    pub fn active_task_count(&self) -> (count: usize)
        ensures
            count == self.active_tasks,
    {
        self.active_tasks
    }

    /// The number of tasks that wait.
    pub fn queued_task_count(&self) -> (count: usize)
        ensures
            count == self.work_queue@.len(),
    {
        self.work_queue.len()
    }

    /// Whether nothing is being worked on and nothing waits.
    pub fn is_idle(&self) -> (idle: bool)
        ensures
            idle == (self.active_tasks == 0 && self.work_queue@.len() == 0),
    {
        self.active_task_count() == 0 && self.queued_task_count() == 0
    }
}

/// Adding a task keeps a queue in order of priority.
pub proof fn lemma_enqueued_keeps_order(queue: Seq<DeletionTask>, task: DeletionTask)
    requires
        in_priority_order(queue),
    ensures
        in_priority_order(enqueued(queue, task)),
{
    let level = task.priority.level();
    let at = place_for(queue, level) as int;
    lemma_place_for_splits(queue, level);
    let after = queue.insert(at, task);
    assert forall|i: int, j: int| 0 <= i <= j < after.len() implies (
    #[trigger] after[i]).priority.level() <= (#[trigger] after[j]).priority.level() by {
        if i < at {
            assert(after[i] == queue[i]);
        } else if i > at {
            assert(after[i] == queue[i - 1]);
        }
        if j < at {
            assert(after[j] == queue[j]);
        } else if j > at {
            assert(after[j] == queue[j - 1]);
            assert(queue[at].priority.level() <= queue[j - 1].priority.level());
        }
    }
}

/// Adding a task loses none: the queue holds the task and what it held
/// before, each as often as before.
pub proof fn lemma_enqueued_keeps_tasks(queue: Seq<DeletionTask>, task: DeletionTask)
    ensures
        enqueued(queue, task).to_multiset() == queue.to_multiset().insert(task),
{
    let at = place_for(queue, task.priority.level()) as int;
    lemma_place_for_splits(queue, task.priority.level());
    let after = queue.insert(at, task);
    assert(after.remove(at) =~= queue);
    assert(after[at] == task);
    vstd::seq_lib::to_multiset_remove(after, at);
    after.to_multiset_ensures();
    assert(after.to_multiset().count(task) > 0);
    assert(after.to_multiset() =~= queue.to_multiset().insert(task));
}

/// A task of strictly smaller priority is handed out before one of larger
/// priority, whichever of the two was added first: once both wait, the
/// smaller one stands nearer the front, and workers draw from the front.
pub proof fn lemma_smaller_priority_starts_first(
    queue: Seq<DeletionTask>,
    small: DeletionTask,
    large: DeletionTask,
)
    requires
        in_priority_order(queue),
        small.priority.level() < large.priority.level(),
    ensures
        ({
            let first = enqueued(queue, small);
            let both = enqueued(first, large);
            let at_small = place_for(queue, small.priority.level()) as int;
            let at_large = place_for(first, large.priority.level()) as int;
            &&& both[at_small] == small
            &&& both[at_large] == large
            &&& at_small < at_large
        }),
        ({
            let first = enqueued(queue, large);
            let both = enqueued(first, small);
            let at_large = place_for(queue, large.priority.level()) as int;
            let at_small = place_for(first, small.priority.level()) as int;
            &&& both[at_small] == small
            &&& both[at_large + 1] == large
            &&& at_small < at_large + 1
        }),
{
    let low = small.priority.level();
    let high = large.priority.level();
    {
        let first = enqueued(queue, small);
        let at_small = place_for(queue, low) as int;
        lemma_place_for_splits(queue, low);
        lemma_place_for_splits(first, high);
        let at_large = place_for(first, high) as int;
        assert(first[at_small] == small);
        if at_large <= at_small {
            assert(first[at_large].priority.level() > high);
            lemma_enqueued_keeps_order(queue, small);
            assert(first[at_large].priority.level() <= first[at_small].priority.level());
        }
    }
    {
        let first = enqueued(queue, large);
        let at_large = place_for(queue, high) as int;
        lemma_place_for_splits(queue, high);
        lemma_place_for_splits(first, low);
        let at_small = place_for(first, low) as int;
        assert(first[at_large] == large);
        if at_small > at_large {
            assert(first[at_large].priority.level() <= low);
        }
    }
}

/// Tasks of the same priority are handed out in the order they were added.
pub proof fn lemma_equal_priority_keeps_order(
    queue: Seq<DeletionTask>,
    earlier: DeletionTask,
    later: DeletionTask,
)
    requires
        in_priority_order(queue),
        earlier.priority.level() == later.priority.level(),
    ensures
        ({
            let first = enqueued(queue, earlier);
            let both = enqueued(first, later);
            let at_earlier = place_for(queue, earlier.priority.level()) as int;
            let at_later = place_for(first, later.priority.level()) as int;
            &&& both[at_earlier] == earlier
            &&& both[at_later] == later
            &&& at_earlier < at_later
        }),
{
    let level = earlier.priority.level();
    let first = enqueued(queue, earlier);
    let at_earlier = place_for(queue, level) as int;
    lemma_place_for_splits(queue, level);
    lemma_place_for_splits(first, level);
    let at_later = place_for(first, level) as int;
    assert(first[at_earlier] == earlier);
    if at_later <= at_earlier {
        assert(first[at_later].priority.level() > level);
        lemma_enqueued_keeps_order(queue, earlier);
        assert(first[at_later].priority.level() <= first[at_earlier].priority.level());
    }
}

} // verus!
