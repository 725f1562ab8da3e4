//! The user's requests to delete: what each one changes in the session and
//! what it hands to the workers.

use vstd::prelude::*;
use vstd::string::StringExecFns;
use crate::app::{App, FreedSpaceEntry};
use crate::deletion::{
    enqueued_all, get_deletion_priority, priority_of, DeletionMessage, DeletionProgress,
    DeletionResult, DeletionTask, DeletionThreadPool,
};
use crate::entry::{DeletionStatus, DirectoryInfo};
use crate::ledger::{saturating_sum, Ledger, MessageView, StatusView};

verus! {

/// Why a deletion could not be requested.
#[derive(Debug, Clone, Copy, PartialEq, Eq, Structural)]
pub enum DeletionError {
    /// The cursor points at no entry.
    NothingSelected,
}

impl DeletionError {
    /// The error in one line.
    pub fn to_string(&self) -> (text: String)
        ensures
            text@ == "No directory selected"@,
    {
        String::from_str("No directory selected")
    }
}

/// Whether `progress` is that of a batch just begun: `total_items` to delete,
/// none done, nothing freed, and `freed_before` bytes freed in the session so
/// far.
pub open spec fn opens_batch(
    progress: DeletionProgress,
    total_items: nat,
    current_path: Seq<char>,
    freed_before: u64,
) -> bool {
    &&& progress.total_items == total_items
    &&& progress.completed_items == 0
    &&& progress.current_path@ == current_path
    &&& progress.deleted_paths@.len() == 0
    &&& progress.errors@.len() == 0
    &&& progress.freed_space == 0
    &&& progress.freed_space_this_session == freed_before
}

/// The indices of the selected ones among the first `count` entries, in
/// order.
pub open spec fn selected_indices(entries: Seq<DirectoryInfo>, count: nat) -> Seq<usize>
    decreases count,
{
    if count == 0 || count > entries.len() {
        Seq::empty()
    } else if entries[count - 1].selected {
        selected_indices(entries, (count - 1) as nat).push((count - 1) as usize)
    } else {
        selected_indices(entries, (count - 1) as nat)
    }
}

/// The task that deletes entry `index`: its path, its size, and the priority
/// that goes with the size.
pub open spec fn task_for(entries: Seq<DirectoryInfo>, index: usize) -> DeletionTask {
    DeletionTask {
        index,
        path: entries[index as int].path,
        priority: priority_of(entries[index as int].size),
        size: entries[index as int].size,
    }
}

/// Every selected index is the index of an entry.
pub proof fn lemma_selected_indices_in_range(entries: Seq<DirectoryInfo>, count: nat)
    requires
        count <= entries.len(),
    ensures
        selected_indices(entries, count).len() <= count,
        forall|k: int|
            0 <= k < selected_indices(entries, count).len() ==> (#[trigger] selected_indices(
                entries,
                count,
            )[k]) < count,
    decreases count,
{
    if count > 0 {
        lemma_selected_indices_in_range(entries, (count - 1) as nat);
    }
}

fn new_batch(total_items: usize, current_path: String, freed_before: u64) -> (progress:
    DeletionProgress)
    ensures
        opens_batch(progress, total_items as nat, current_path@, freed_before),
{
    DeletionProgress {
        total_items,
        completed_items: 0,
        current_path,
        deleted_paths: Vec::new(),
        errors: Vec::new(),
        freed_space: 0,
        freed_space_this_session: freed_before,
    }
}

impl App {
    /// Whether `after` is this session with a batch of `total_items` just
    /// begun and nothing else changed.
    pub open spec fn batch_begun(&self, after: App, total_items: nat, current_path: Seq<char>) -> bool {
        &&& after == (App { deletion_progress: after.deletion_progress, ..*self })
        &&& after.deletion_progress matches Some(progress) && opens_batch(
            progress,
            total_items,
            current_path,
            self.total_freed_space,
        )
    }

    fn selected_positions(&self) -> (indices: Vec<usize>)
        ensures
            indices@ == selected_indices(self.directories@, self.directories@.len()),
    {
        let mut indices: Vec<usize> = Vec::new();
        let mut i: usize = 0;
        while i < self.directories.len()
            invariant
                i <= self.directories@.len(),
                indices@ == selected_indices(self.directories@, i as nat),
            decreases self.directories@.len() - i,
        {
            if self.directories[i].selected {
                indices.push(i);
            }
            i += 1;
        }
        indices
    }

    /// Begins the deletion of the entry under the cursor in the background:
    /// opens a batch of one and returns the message that announces it. The
    /// caller sends the message, removes the directory, and reports how that
    /// went. With the cursor at no entry nothing changes.
    pub fn start_delete_current_directory(&mut self) -> (result: Result<
        DeletionMessage,
        DeletionError,
    >)
        ensures
            if old(self).selected < old(self).directories@.len() {
                let entry = old(self).directories@[old(self).selected as int];
                &&& result == Ok::<DeletionMessage, DeletionError>(
                    DeletionMessage::StartSingle { index: old(self).selected, path: entry.path },
                )
                &&& old(self).batch_begun(*final(self), 1, entry.path@)
            } else {
                &&& result == Err::<DeletionMessage, DeletionError>(DeletionError::NothingSelected)
                &&& *final(self) == *old(self)
            },
            old(self).entries_kept_in(*final(self)),
            old(self).indexed() ==> final(self).indexed(),
            old(self).cursor_valid() ==> final(self).cursor_valid(),
    {
        proof {
            assert(self.paths().take(self.paths().len() as int) =~= self.paths());
        }
        if self.selected < self.directories.len() {
            let path = self.directories[self.selected].path.clone();
            let index: usize = self.selected;
            self.deletion_progress = Some(new_batch(1, path.clone(), self.total_freed_space));
            Ok(DeletionMessage::StartSingle { index, path })
        } else {
            Err(DeletionError::NothingSelected)
        }
    }

    /// Begins the deletion of the selected entries in the background: opens a
    /// batch of as many items and returns the message that names them, by
    /// index and by path, in the order of the list. The caller sends the
    /// message, removes the directories one by one, and reports how each
    /// went. With nothing selected nothing changes.
    pub fn start_delete_selected_directories(&mut self) -> (message: Option<DeletionMessage>)
        ensures
            ({
                let chosen = selected_indices(
                    old(self).directories@,
                    old(self).directories@.len(),
                );
                if chosen.len() == 0 {
                    &&& message is None
                    &&& *final(self) == *old(self)
                } else {
                    &&& message matches Some(start) && start@ == (MessageView::StartMultiple {
                        indices: chosen,
                        paths: Seq::new(
                            chosen.len(),
                            |k: int| old(self).directories@[chosen[k] as int].path@,
                        ),
                    })
                    &&& old(self).batch_begun(*final(self), chosen.len(), Seq::empty())
                }
            }),
            old(self).entries_kept_in(*final(self)),
            old(self).indexed() ==> final(self).indexed(),
            old(self).cursor_valid() ==> final(self).cursor_valid(),
    {
        proof {
            assert(self.paths().take(self.paths().len() as int) =~= self.paths());
            lemma_selected_indices_in_range(self.directories@, self.directories@.len());
        }
        let indices = self.selected_positions();
        if indices.len() == 0 {
            return None;
        }
        self.deletion_progress = Some(
            new_batch(indices.len(), String::new(), self.total_freed_space),
        );
        let mut paths: Vec<String> = Vec::new();
        let mut k: usize = 0;
        while k < indices.len()
            invariant
                k <= indices@.len(),
                self.directories == old(self).directories,
                indices@ == selected_indices(self.directories@, self.directories@.len()),
                forall|j: int| 0 <= j < indices@.len() ==> (#[trigger] indices@[j])
                    < self.directories@.len(),
                paths@.len() == k,
                forall|j: int|
                    0 <= j < k ==> (#[trigger] paths@[j])@
                        == self.directories@[indices@[j] as int].path@,
            decreases indices@.len() - k,
        {
            paths.push(self.directories[indices[k]].path.clone());
            k += 1;
        }
        let message = DeletionMessage::StartMultiple { indices, paths };
        proof {
            let chosen = selected_indices(self.directories@, self.directories@.len());
            assert(crate::text::texts(paths@) =~= Seq::new(
                chosen.len(),
                |k: int| self.directories@[chosen[k] as int].path@,
            ));
        }
        Some(message)
    }

    /// The tasks that delete the selected entries, in the order of the list.
    pub open spec fn selected_tasks(&self) -> Seq<DeletionTask> {
        let chosen = selected_indices(self.directories@, self.directories@.len());
        Seq::new(chosen.len(), |k: int| task_for(self.directories@, chosen[k]))
    }

    /// Hands the selected entries to the pool of deletion workers: opens a
    /// batch of as many items and queues one task for each, in the order of
    /// the list, each with the priority that goes with its size. Returns how
    /// many tasks were queued. With nothing selected nothing changes.
    pub fn delete_selected_directories(&mut self, pool: &mut DeletionThreadPool) -> (queued: usize)
        ensures
            queued == old(self).selected_tasks().len(),
            final(pool).work_queue@ == enqueued_all(
                old(pool).work_queue@,
                old(self).selected_tasks(),
                old(self).selected_tasks().len(),
            ),
            final(pool).active_tasks == old(pool).active_tasks,
            final(pool).max_workers == old(pool).max_workers,
            old(pool).wf() ==> final(pool).wf(),
            if queued == 0 {
                *final(self) == *old(self)
            } else {
                old(self).batch_begun(*final(self), queued as nat, Seq::empty())
            },
            old(self).entries_kept_in(*final(self)),
            old(self).indexed() ==> final(self).indexed(),
            old(self).cursor_valid() ==> final(self).cursor_valid(),
    {
        proof {
            assert(self.paths().take(self.paths().len() as int) =~= self.paths());
            lemma_selected_indices_in_range(self.directories@, self.directories@.len());
        }
        let indices = self.selected_positions();
        if indices.len() == 0 {
            return 0;
        }
        self.deletion_progress = Some(
            new_batch(indices.len(), String::new(), self.total_freed_space),
        );
        let ghost tasks = old(self).selected_tasks();
        let mut k: usize = 0;
        while k < indices.len()
            invariant
                k <= indices@.len(),
                self.directories == old(self).directories,
                indices@ == selected_indices(self.directories@, self.directories@.len()),
                forall|j: int| 0 <= j < indices@.len() ==> (#[trigger] indices@[j])
                    < self.directories@.len(),
                tasks == old(self).selected_tasks(),
                tasks.len() == indices@.len(),
                pool.work_queue@ == enqueued_all(old(pool).work_queue@, tasks, k as nat),
                pool.active_tasks == old(pool).active_tasks,
                pool.max_workers == old(pool).max_workers,
                old(pool).wf() ==> pool.wf(),
            decreases indices@.len() - k,
        {
            let index: usize = indices[k];
            let entry = &self.directories[index];
            let task = DeletionTask {
                index,
                path: entry.path.clone(),
                priority: get_deletion_priority(entry.size),
                size: entry.size,
            };
            assert(task == tasks[k as int]);
            pool.add_task(task);
            k += 1;
        }
        indices.len()
    }

    /// Whether `after` is this session with the deletion of the entry under
    /// the cursor begun: a batch of one is open for its path, the entry is
    /// marked `Deleting`, and nothing else changed.
    pub open spec fn current_begun(&self, after: App) -> bool {
        let at = self.selected as int;
        &&& self.selected < self.directories@.len()
        &&& after == (App {
            deletion_progress: after.deletion_progress,
            directories: after.directories,
            ..*self
        })
        &&& after.deletion_progress matches Some(progress) && opens_batch(
            progress,
            1,
            self.directories@[at].path@,
            self.total_freed_space,
        )
        &&& after.directories@ == self.directories@.update(
            at,
            DirectoryInfo { deletion_status: DeletionStatus::Deleting, ..self.directories@[at] },
        )
    }

    /// Begins the deletion of the entry under the cursor while the caller
    /// waits: opens a batch of one, marks the entry as `Deleting`, and returns
    /// the path to remove. The caller removes the directory and reports the
    /// outcome to `finish_current_deletion`. With the cursor at no entry
    /// nothing changes.
    pub fn delete_current_directory(&mut self) -> (result: Result<String, DeletionError>)
        ensures
            if old(self).selected < old(self).directories@.len() {
                &&& result == Ok::<String, DeletionError>(
                    old(self).directories@[old(self).selected as int].path,
                )
                &&& old(self).current_begun(*final(self))
            } else {
                &&& result == Err::<String, DeletionError>(DeletionError::NothingSelected)
                &&& *final(self) == *old(self)
            },
            old(self).entries_kept_in(*final(self)),
            old(self).indexed() ==> final(self).indexed(),
            old(self).cursor_valid() ==> final(self).cursor_valid(),
    {
        if self.selected < self.directories.len() {
            let path = self.directories[self.selected].path.clone();
            self.deletion_progress = Some(new_batch(1, path.clone(), self.total_freed_space));
            self.directories[self.selected].deletion_status = DeletionStatus::Deleting;
            proof {
                assert(self.paths() =~= old(self).paths());
                assert(self.paths().take(self.paths().len() as int) =~= self.paths());
            }
            Ok(path)
        } else {
            proof {
                assert(self.paths().take(self.paths().len() as int) =~= self.paths());
            }
            Err(DeletionError::NothingSelected)
        }
    }

    /// What ending the deletion of the entry under the cursor reports to the
    /// accounting: the one result, a success unless there was a failure.
    pub open spec fn current_result(&self, failure: Option<String>) -> crate::ledger::ResultView {
        crate::ledger::ResultView {
            index: self.selected,
            path: self.directories@[self.selected as int].path@,
            success: failure is None,
            error: match failure {
                Some(error) => Some(error@),
                None => None,
            },
        }
    }

    /// Whether `after` is this session with the deletion of the entry under
    /// the cursor ended as a report of the one result ends a batch: the
    /// accounting has taken the result, the batch is over, and nothing else
    /// changed.
    pub open spec fn current_ended(&self, after: App, failure: Option<String>) -> bool {
        &&& self.selected < self.directories@.len()
        &&& self.accounts_only(after)
        &&& after.deletion_progress is None
        &&& after.ledger() == self.ledger().after(
            MessageView::Complete { results: seq![self.current_result(failure)] },
        )
    }

    /// Ends the deletion that `delete_current_directory` began, as a report
    /// of the one result ends a batch: without a failure the entry under the
    /// cursor is marked `Deleted`, its size is credited to the ledger, and
    /// its path is returned; with a failure the entry is marked with the
    /// error, nothing is credited, and the error is returned. Either way the
    /// batch is over and the entry stays in the list. With the cursor at no
    /// entry only the batch ends.
    pub fn finish_current_deletion(&mut self, failure: Option<String>) -> (result: Result<
        String,
        String,
    >)
        ensures
            if old(self).selected < old(self).directories@.len() {
                &&& old(self).current_ended(*final(self), failure)
                &&& match failure {
                    None => result == Ok::<String, String>(
                        old(self).directories@[old(self).selected as int].path,
                    ),
                    Some(error) => result == Err::<String, String>(error),
                }
            } else {
                &&& *final(self) == (App { deletion_progress: None, ..*old(self) })
                &&& result matches Err(text) && text@ == "No directory selected"@
            },
            old(self).accounts_only(*final(self)),
            old(self).entries_kept_in(*final(self)),
            old(self).indexed() ==> final(self).indexed(),
            old(self).cursor_valid() ==> final(self).cursor_valid(),
    {
        if self.selected < self.directories.len() {
            let path = self.directories[self.selected].path.clone();
            let ghost report = old(self).current_result(failure);
            let ghost start = old(self).ledger();
            let result = match &failure {
                None => Ok(path.clone()),
                Some(error) => Err(error.clone()),
            };
            self.apply_deletion_result(DeletionResult::of(self.selected, path, failure));
            let ghost settled = *self;
            self.deletion_progress = None;
            proof {
                let results = seq![report];
                assert(start.settled_all(results, 0) == start);
                assert(start.settled_all(results, 1) == start.settled(report));
                let wanted = start.after(MessageView::Complete { results });
                assert(self.ledger().statuses =~= wanted.statuses);
                assert(self.ledger().sizes =~= wanted.sizes);
                assert(self.ledger().credits =~= wanted.credits);
                assert(self.ledger() == wanted);
                old(self).lemma_accounts_only_keeps_entries(*self);
            }
            result
        } else {
            self.deletion_progress = None;
            proof {
                old(self).lemma_accounts_only_reflexive();
                old(self).lemma_accounts_only_keeps_entries(*self);
            }
            Err(String::from_str("No directory selected"))
        }
    }

    /// Deleting the entry under the cursor while waiting, with success,
    /// keeps the books: the entry is `Deleted`, its size is added to the
    /// total as far as 64 bits hold it, one credit with its path and size
    /// stands behind the earlier ones, no batch is left open, and a ledger
    /// that was balanced is balanced again. The entry was not `Deleted` with
    /// a size before: such an entry would be counted twice.
    pub proof fn lemma_current_deletion_credited(&self, begun: App, ended: App)
        requires
            self.current_begun(begun),
            begun.current_ended(ended, None),
            self.ledger().honest(self.selected, StatusView::Deleting, false),
        ensures
            ended.directories@.len() == self.directories@.len(),
            ended.directories@[self.selected as int].deletion_status@ is Deleted,
            ended.total_freed_space == saturating_sum(
                self.total_freed_space,
                self.directories@[self.selected as int].size,
            ),
            self.total_freed_space + self.directories@[self.selected as int].size <= u64::MAX
                ==> ended.total_freed_space == self.total_freed_space
                + self.directories@[self.selected as int].size,
            ended.ledger().credits == self.ledger().credits.push(
                (
                    self.directories@[self.selected as int].path@,
                    self.directories@[self.selected as int].size,
                ),
            ),
            ended.freed_space_history@.len() == self.freed_space_history@.len() + 1,
            ended.deletion_progress is None,
            self.ledger().adds_up() ==> ended.ledger().adds_up(),
            self.ledger().balanced() ==> ended.ledger().balanced(),
    {
        let at = self.selected;
        let start = self.ledger();
        let marked = start.with_status(at, StatusView::Deleting);
        let open = begun.ledger();
        assert(open.statuses =~= marked.statuses);
        assert(open.sizes =~= marked.sizes);
        assert(open.credits =~= marked.credits);
        assert(open == (Ledger { batch: Some(0u64), ..marked }));
        let report = begun.current_result(None);
        let results = seq![report];
        assert(open.settled_all(results, 0) == open);
        assert(open.settled_all(results, 1) == open.settled(report));
        let closed = open.after(MessageView::Complete { results });
        assert(ended.ledger() == closed);
        assert(closed.statuses[at as int] is Deleted);
        assert(ended.ledger().statuses[at as int] == ended.directories@[at as int].deletion_status@);
        assert(ended.ledger().credits.len() == ended.freed_space_history@.len());
        assert(start.credits.len() == self.freed_space_history@.len());
        if start.adds_up() {
            assert(open.adds_up());
            open.lemma_settled_adds_up(report);
        }
        if start.balanced() {
            start.lemma_status_keeps_balance(at, StatusView::Deleting);
            assert(open.balanced());
            open.lemma_settled_keeps_balance(report);
        }
    }

    /// The batch of deletions under way, if one is.
    pub fn get_deletion_progress(&self) -> (progress: Option<&DeletionProgress>)
        ensures
            match self.deletion_progress {
                Some(batch) => progress == Some(&batch),
                None => progress is None,
            },
    {
        self.deletion_progress.as_ref()
    }

    /// Whether a batch of deletions is under way.
    pub fn is_deleting(&self) -> (deleting: bool)
        ensures
            deleting == self.deletion_progress is Some,
    {
        self.deletion_progress.is_some()
    }

    /// The bytes freed in the session.
    pub fn get_total_freed_space(&self) -> (freed: u64)
        ensures
            freed == self.total_freed_space,
    {
        self.total_freed_space
    }

    /// The bytes freed by the batch under way; 0 if none is.
    pub fn get_session_freed_space(&self) -> (freed: u64)
        ensures
            freed == match self.deletion_progress {
                Some(batch) => batch.freed_space,
                None => 0,
            },
    {
        match &self.deletion_progress {
            Some(batch) => batch.freed_space,
            None => 0,
        }
    }

    /// The last five credits of the ledger, oldest first; all of them if
    /// there are fewer.
    pub fn get_recent_freed_space_history(&self) -> (recent: Vec<&FreedSpaceEntry>)
        ensures
            ({
                let all = self.freed_space_history@;
                let start = if all.len() > 5 {
                    all.len() - 5
                } else {
                    0
                };
                &&& recent@.len() == all.len() - start
                &&& forall|k: int| 0 <= k < recent@.len() ==> *(#[trigger] recent@[k]) == all[start + k]
            }),
    {
        let len: usize = self.freed_space_history.len();
        let start: usize = if len > 5 {
            len - 5
        } else {
            0
        };
        let mut recent: Vec<&FreedSpaceEntry> = Vec::new();
        let mut i: usize = start;
        while i < len
            invariant
                start <= i <= len,
                len == self.freed_space_history@.len(),
                recent@.len() == i - start,
                forall|k: int|
                    0 <= k < recent@.len() ==> *(#[trigger] recent@[k])
                        == self.freed_space_history@[start + k],
            decreases len - i,
        {
            recent.push(&self.freed_space_history[i]);
            i += 1;
        }
        recent
    }
}

} // verus!
