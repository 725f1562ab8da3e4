//! The accounting of deletions: what each report from the workers does to the
//! statuses of the entries and to the ledger of freed space.

use vstd::prelude::*;
use vstd::string::StringExecFns;
use std::time::Instant;
use crate::app::{App, FreedSpaceEntry};
use crate::deletion::{DeletionMessage, DeletionProgress, DeletionResult};
use crate::entry::{DeletionStatus, DirectoryInfo};
use crate::size::capped;
use crate::text::texts;

verus! {

/// A deletion status with its message as characters.
pub enum StatusView {
    Normal,
    Deleting,
    Deleted,
    Error(Seq<char>),
}

impl View for DeletionStatus {
    type V = StatusView;

    open spec fn view(&self) -> StatusView {
        match self {
            DeletionStatus::Normal => StatusView::Normal,
            DeletionStatus::Deleting => StatusView::Deleting,
            DeletionStatus::Deleted => StatusView::Deleted,
            DeletionStatus::Error(message) => StatusView::Error(message@),
        }
    }
}

/// A deletion result with its texts as characters.
pub struct ResultView {
    pub index: usize,
    pub path: Seq<char>,
    pub success: bool,
    pub error: Option<Seq<char>>,
}

impl View for DeletionResult {
    type V = ResultView;

    open spec fn view(&self) -> ResultView {
        ResultView {
            index: self.index,
            path: self.path@,
            success: self.success,
            error: match self.error {
                Some(message) => Some(message@),
                None => None,
            },
        }
    }
}

/// A deletion message with its texts as characters.
pub enum MessageView {
    StartSingle { index: usize, path: Seq<char> },
    StartMultiple { indices: Seq<usize>, paths: Seq<Seq<char>> },
    Progress { index: usize, status: StatusView },
    Complete { results: Seq<ResultView> },
}

impl View for DeletionMessage {
    type V = MessageView;

    open spec fn view(&self) -> MessageView {
        match self {
            DeletionMessage::StartSingle { index, path } => MessageView::StartSingle {
                index: *index,
                path: path@,
            },
            DeletionMessage::StartMultiple { indices, paths } => MessageView::StartMultiple {
                indices: indices@,
                paths: texts(paths@),
            },
            DeletionMessage::Progress { index, status } => MessageView::Progress {
                index: *index,
                status: status@,
            },
            DeletionMessage::Complete { results } => MessageView::Complete {
                results: Seq::new(results@.len(), |i: int| results@[i]@),
            },
        }
    }
}

/// What the accounting of deletions reads and writes of a session.
pub struct Ledger {
    /// The deletion status of each entry.
    pub statuses: Seq<StatusView>,
    /// The size of each entry.
    pub sizes: Seq<u64>,
    /// The bytes freed in the session.
    pub total: u64,
    /// The credits that were given, oldest first: path and bytes.
    pub credits: Seq<(Seq<char>, u64)>,
    /// The bytes freed by the batch under way, if one is.
    pub batch: Option<u64>,
}

/// `a + b` as far as 64 bits hold it.
pub open spec fn saturating_sum(a: u64, b: u64) -> u64 {
    capped((a + b) as nat)
}

/// The status that the result of a deletion leaves: `Deleted` after a
/// success, else the error with its message, or with "Unknown error" if none
/// was given.
pub open spec fn status_after(result: ResultView) -> StatusView {
    if result.success {
        StatusView::Deleted
    } else {
        match result.error {
            Some(message) => StatusView::Error(message),
            None => StatusView::Error("Unknown error"@),
        }
    }
}

impl Ledger {
    /// The number of entries.
    pub open spec fn len(self) -> nat {
        self.statuses.len()
    }

    /// The ledger with the status of entry `index` set; unchanged if there is
    /// no such entry.
    pub open spec fn with_status(self, index: usize, status: StatusView) -> Ledger {
        if index < self.len() {
            Ledger { statuses: self.statuses.update(index as int, status), ..self }
        } else {
            self
        }
    }

    /// The ledger with the first `count` of `indices` marked as `Deleting`.
    pub open spec fn with_deleting(self, indices: Seq<usize>, count: nat) -> Ledger
        decreases count,
    {
        if count == 0 || count > indices.len() {
            self
        } else {
            self.with_deleting(indices, (count - 1) as nat).with_status(
                indices[count - 1],
                StatusView::Deleting,
            )
        }
    }

    /// The ledger after the result of one deletion. A success credits the
    /// entry's size to the total and to the batch, records path and size, and
    /// marks the entry `Deleted`; a failure marks it with the error and
    /// credits nothing. A result for an entry that does not exist changes
    /// nothing.
    pub open spec fn settled(self, result: ResultView) -> Ledger {
        if result.index < self.len() {
            if result.success {
                let freed = self.sizes[result.index as int];
                Ledger {
                    statuses: self.statuses.update(result.index as int, StatusView::Deleted),
                    total: saturating_sum(self.total, freed),
                    credits: self.credits.push((result.path, freed)),
                    batch: match self.batch {
                        Some(so_far) => Some(saturating_sum(so_far, freed)),
                        None => None,
                    },
                    ..self
                }
            } else {
                Ledger {
                    statuses: self.statuses.update(result.index as int, status_after(result)),
                    ..self
                }
            }
        } else {
            self
        }
    }

    /// The ledger after the first `count` of `results`, in order.
    pub open spec fn settled_all(self, results: Seq<ResultView>, count: nat) -> Ledger
        decreases count,
    {
        if count == 0 || count > results.len() {
            self
        } else {
            self.settled_all(results, (count - 1) as nat).settled(results[count - 1])
        }
    }

    /// The ledger after a message from the deletion workers.
    pub open spec fn after(self, message: MessageView) -> Ledger {
        match message {
            MessageView::StartSingle { index, path } => self.with_status(
                index,
                StatusView::Deleting,
            ),
            MessageView::StartMultiple { indices, paths } => self.with_deleting(
                indices,
                indices.len(),
            ),
            MessageView::Progress { index, status } => self.with_status(index, status),
            MessageView::Complete { results } => Ledger {
                batch: None,
                ..self.settled_all(results, results.len())
            },
        }
    }

    /// The ledger after the first `count` of `messages`, in order.
    pub open spec fn after_all(self, messages: Seq<MessageView>, count: nat) -> Ledger
        decreases count,
    {
        if count == 0 || count > messages.len() {
            self
        } else {
            self.after_all(messages, (count - 1) as nat).after(messages[count - 1])
        }
    }

    /// The total is the sum of the credits, as far as 64 bits hold it.
    pub open spec fn adds_up(self) -> bool {
        self.total == capped(sum_credits(self.credits, self.credits.len()))
    }

    /// The total is the sum of the sizes of the entries that are `Deleted`,
    /// as far as 64 bits hold it.
    pub open spec fn balanced(self) -> bool {
        &&& self.sizes.len() == self.statuses.len()
        &&& self.total == capped(sum_deleted(self.statuses, self.sizes, self.len()))
    }
}

/// The sizes of those of the first `count` entries that are `Deleted`, added
/// up.
pub open spec fn sum_deleted(statuses: Seq<StatusView>, sizes: Seq<u64>, count: nat) -> nat
    decreases count,
{
    if count == 0 || count > statuses.len() || count > sizes.len() {
        0
    } else {
        sum_deleted(statuses, sizes, (count - 1) as nat) + if statuses[count - 1] is Deleted {
            sizes[count - 1] as nat
        } else {
            0
        }
    }
}

/// The bytes of the first `count` credits added up.
pub open spec fn sum_credits(credits: Seq<(Seq<char>, u64)>, count: nat) -> nat
    decreases count,
{
    if count == 0 || count > credits.len() {
        0
    } else {
        sum_credits(credits, (count - 1) as nat) + credits[count - 1].1 as nat
    }
}

/// The sum of deleted bytes after the status or the size of one entry
/// changed: the sum before, less the entry's old share, plus its new one.
pub proof fn lemma_sum_deleted_of_changed(
    statuses: Seq<StatusView>,
    sizes: Seq<u64>,
    new_statuses: Seq<StatusView>,
    new_sizes: Seq<u64>,
    index: int,
    count: nat,
)
    requires
        sizes.len() == statuses.len(),
        new_sizes.len() == statuses.len(),
        new_statuses.len() == statuses.len(),
        0 <= index < statuses.len(),
        count <= statuses.len(),
        forall|i: int|
            0 <= i < statuses.len() && i != index ==> new_statuses[i] == statuses[i]
                && new_sizes[i] == sizes[i],
    ensures
        sum_deleted(new_statuses, new_sizes, count) == if index < count {
            sum_deleted(statuses, sizes, count) - share(statuses, sizes, index) + share(
                new_statuses,
                new_sizes,
                index,
            )
        } else {
            sum_deleted(statuses, sizes, count) as int
        },
        index < count ==> sum_deleted(statuses, sizes, count) >= share(statuses, sizes, index),
    decreases count,
{
    if count > 0 {
        lemma_sum_deleted_of_changed(
            statuses,
            sizes,
            new_statuses,
            new_sizes,
            index,
            (count - 1) as nat,
        );
    }
}

/// The first entries of a list add up to the same in a list that continues
/// it.
pub proof fn lemma_sum_deleted_of_prefix(
    statuses: Seq<StatusView>,
    sizes: Seq<u64>,
    more_statuses: Seq<StatusView>,
    more_sizes: Seq<u64>,
    count: nat,
)
    requires
        sizes.len() == statuses.len(),
        more_sizes.len() == more_statuses.len(),
        count <= statuses.len() <= more_statuses.len(),
        forall|i: int|
            0 <= i < statuses.len() ==> more_statuses[i] == statuses[i] && more_sizes[i]
                == sizes[i],
    ensures
        sum_deleted(more_statuses, more_sizes, count) == sum_deleted(statuses, sizes, count),
    decreases count,
{
    if count > 0 {
        lemma_sum_deleted_of_prefix(
            statuses,
            sizes,
            more_statuses,
            more_sizes,
            (count - 1) as nat,
        );
    }
}

/// Entries that are not `Deleted` add nothing to the sum of deleted bytes.
pub proof fn lemma_sum_deleted_skips(
    statuses: Seq<StatusView>,
    sizes: Seq<u64>,
    from: nat,
    count: nat,
)
    requires
        sizes.len() == statuses.len(),
        from <= count <= statuses.len(),
        forall|i: int| from <= i < count ==> !(statuses[i] is Deleted),
    ensures
        sum_deleted(statuses, sizes, count) == sum_deleted(statuses, sizes, from),
    decreases count,
{
    if count > from {
        lemma_sum_deleted_skips(statuses, sizes, from, (count - 1) as nat);
    }
}

/// The first credits add up to the same in a list that continues them.
pub proof fn lemma_sum_credits_of_prefix(
    credits: Seq<(Seq<char>, u64)>,
    more: Seq<(Seq<char>, u64)>,
    count: nat,
)
    requires
        count <= credits.len() <= more.len(),
        forall|i: int| 0 <= i < credits.len() ==> more[i] == credits[i],
    ensures
        sum_credits(more, count) == sum_credits(credits, count),
    decreases count,
{
    if count > 0 {
        lemma_sum_credits_of_prefix(credits, more, (count - 1) as nat);
    }
}

/// What entry `index` adds to the sum of deleted bytes.
pub open spec fn share(statuses: Seq<StatusView>, sizes: Seq<u64>, index: int) -> nat {
    if 0 <= index < statuses.len() && index < sizes.len() && statuses[index] is Deleted {
        sizes[index] as nat
    } else {
        0
    }
}

impl Ledger {
    /// Whether giving entry `index` the status `status` goes with the books:
    /// the entry's size is credited exactly when the entry becomes `Deleted`,
    /// and an entry that is `Deleted` stays so. An entry of size 0 and an
    /// index beyond the list are of no account.
    pub open spec fn honest(self, index: usize, status: StatusView, credited: bool) -> bool {
        index >= self.len() || self.sizes[index as int] == 0 || {
            &&& credited == (status is Deleted && !(self.statuses[index as int] is Deleted))
            &&& self.statuses[index as int] is Deleted ==> status is Deleted
        }
    }

    /// Whether the first `count` of `indices` can be marked `Deleting` with
    /// the books kept: none of them is `Deleted` with a size.
    pub open spec fn can_mark(self, indices: Seq<usize>, count: nat) -> bool
        decreases count,
    {
        count == 0 || count > indices.len() || {
            &&& self.can_mark(indices, (count - 1) as nat)
            &&& self.with_deleting(indices, (count - 1) as nat).honest(
                indices[count - 1],
                StatusView::Deleting,
                false,
            )
        }
    }

    /// Whether the first `count` of `results` can be settled with the books
    /// kept: none is for an entry that is `Deleted` with a size when its turn
    /// comes.
    pub open spec fn can_settle(self, results: Seq<ResultView>, count: nat) -> bool
        decreases count,
    {
        count == 0 || count > results.len() || {
            &&& self.can_settle(results, (count - 1) as nat)
            &&& self.settled_all(results, (count - 1) as nat).honest(
                results[count - 1].index,
                status_after(results[count - 1]),
                results[count - 1].success,
            )
        }
    }

    /// Whether the message goes with the books: it does not touch an entry
    /// that is `Deleted` with a size, and it reports no entry as `Deleted`
    /// without crediting it.
    pub open spec fn fair(self, message: MessageView) -> bool {
        match message {
            MessageView::StartSingle { index, path } => self.honest(
                index,
                StatusView::Deleting,
                false,
            ),
            MessageView::StartMultiple { indices, paths } => self.can_mark(indices, indices.len()),
            MessageView::Progress { index, status } => self.honest(index, status, false),
            MessageView::Complete { results } => self.can_settle(results, results.len()),
        }
    }

    /// Whether each of the first `count` of `messages` goes with the books
    /// when its turn comes.
    pub open spec fn fair_all(self, messages: Seq<MessageView>, count: nat) -> bool
        decreases count,
    {
        count == 0 || count > messages.len() || {
            &&& self.fair_all(messages, (count - 1) as nat)
            &&& self.after_all(messages, (count - 1) as nat).fair(messages[count - 1])
        }
    }

    /// A status that goes with the books keeps the ledger balanced.
    pub proof fn lemma_status_keeps_balance(self, index: usize, status: StatusView)
        requires
            self.balanced(),
            self.honest(index, status, false),
        ensures
            self.with_status(index, status).balanced(),
    {
        if index < self.len() {
            let after = self.with_status(index, status);
            lemma_sum_deleted_of_changed(
                self.statuses,
                self.sizes,
                after.statuses,
                after.sizes,
                index as int,
                self.len(),
            );
        }
    }

    /// A result that goes with the books keeps the ledger balanced.
    pub proof fn lemma_settled_keeps_balance(self, result: ResultView)
        requires
            self.balanced(),
            self.honest(result.index, status_after(result), result.success),
        ensures
            self.settled(result).balanced(),
    {
        if result.index < self.len() {
            let after = self.settled(result);
            lemma_sum_deleted_of_changed(
                self.statuses,
                self.sizes,
                after.statuses,
                after.sizes,
                result.index as int,
                self.len(),
            );
        }
    }

    /// Settling a result keeps the total equal to the sum of the credits.
    pub proof fn lemma_settled_adds_up(self, result: ResultView)
        requires
            self.adds_up(),
        ensures
            self.settled(result).adds_up(),
    {
        let after = self.settled(result);
        if result.index < self.len() && result.success {
            lemma_sum_credits_of_prefix(self.credits, after.credits, self.credits.len());
        }
    }

    /// Marking entries as `Deleting` keeps the total equal to the sum of the
    /// credits, and equal to the sum of the sizes of the deleted entries as
    /// long as none of the marked entries was `Deleted` with a size.
    pub proof fn lemma_marking_keeps_laws(self, indices: Seq<usize>, count: nat)
        requires
            count <= indices.len(),
        ensures
            self.adds_up() ==> self.with_deleting(indices, count).adds_up(),
            self.balanced() && self.can_mark(indices, count) ==> self.with_deleting(
                indices,
                count,
            ).balanced(),
        decreases count,
    {
        if count > 0 {
            self.lemma_marking_keeps_laws(indices, (count - 1) as nat);
            let before = self.with_deleting(indices, (count - 1) as nat);
            if self.balanced() && self.can_mark(indices, count) {
                before.lemma_status_keeps_balance(indices[count - 1], StatusView::Deleting);
            }
        }
    }

    /// Settling results keeps the total equal to the sum of the credits, and
    /// equal to the sum of the sizes of the deleted entries as long as each
    /// result goes with the books when its turn comes.
    pub proof fn lemma_settling_keeps_laws(self, results: Seq<ResultView>, count: nat)
        requires
            count <= results.len(),
        ensures
            self.adds_up() ==> self.settled_all(results, count).adds_up(),
            self.balanced() && self.can_settle(results, count) ==> self.settled_all(
                results,
                count,
            ).balanced(),
        decreases count,
    {
        if count > 0 {
            self.lemma_settling_keeps_laws(results, (count - 1) as nat);
            let before = self.settled_all(results, (count - 1) as nat);
            if self.adds_up() {
                before.lemma_settled_adds_up(results[count - 1]);
            }
            if self.balanced() && self.can_settle(results, count) {
                before.lemma_settled_keeps_balance(results[count - 1]);
            }
        }
    }

    /// Whatever the workers report, the total stays the sum of the credits.
    pub proof fn lemma_message_adds_up(self, message: MessageView)
        requires
            self.adds_up(),
        ensures
            self.after(message).adds_up(),
    {
        match message {
            MessageView::StartMultiple { indices, paths } => {
                self.lemma_marking_keeps_laws(indices, indices.len());
            },
            MessageView::Complete { results } => {
                self.lemma_settling_keeps_laws(results, results.len());

            },
            _ => {},
        }
    }

    /// A message that goes with the books keeps the total equal to the sum
    /// of the sizes of the deleted entries.
    pub proof fn lemma_message_keeps_balance(self, message: MessageView)
        requires
            self.balanced(),
            self.fair(message),
        ensures
            self.after(message).balanced(),
    {
        match message {
            MessageView::StartSingle { index, path } => {
                self.lemma_status_keeps_balance(index, StatusView::Deleting);
            },
            MessageView::StartMultiple { indices, paths } => {
                self.lemma_marking_keeps_laws(indices, indices.len());
            },
            MessageView::Progress { index, status } => {
                self.lemma_status_keeps_balance(index, status);
            },
            MessageView::Complete { results } => {
                self.lemma_settling_keeps_laws(results, results.len());

            },
        }
    }

    /// Through any run of messages the total stays the sum of the credits;
    /// and as long as each message goes with the books, it stays the sum of
    /// the sizes of the deleted entries.
    pub proof fn lemma_messages_keep_laws(self, messages: Seq<MessageView>, count: nat)
        requires
            count <= messages.len(),
        ensures
            self.adds_up() ==> self.after_all(messages, count).adds_up(),
            self.balanced() && self.fair_all(messages, count) ==> self.after_all(
                messages,
                count,
            ).balanced(),
        decreases count,
    {
        if count > 0 {
            self.lemma_messages_keep_laws(messages, (count - 1) as nat);
            let before = self.after_all(messages, (count - 1) as nat);
            if self.adds_up() {
                before.lemma_message_adds_up(messages[count - 1]);
            }
            if self.balanced() && self.fair_all(messages, count) {
                before.lemma_message_keeps_balance(messages[count - 1]);
            }
        }
    }
}

/// The views of a list of messages.
pub open spec fn message_views(messages: Seq<DeletionMessage>) -> Seq<MessageView> {
    Seq::new(messages.len(), |i: int| messages[i]@)
}

/// The views of a list of results.
pub open spec fn result_views(results: Seq<DeletionResult>) -> Seq<ResultView> {
    Seq::new(results.len(), |i: int| results[i]@)
}

impl App {
    /// What the accounting of deletions sees of the session.
    pub open spec fn ledger(&self) -> Ledger {
        Ledger {
            statuses: Seq::new(
                self.directories@.len(),
                |i: int| self.directories@[i].deletion_status@,
            ),
            sizes: Seq::new(self.directories@.len(), |i: int| self.directories@[i].size),
            total: self.total_freed_space,
            credits: Seq::new(
                self.freed_space_history@.len(),
                |i: int| (self.freed_space_history@[i].path@, self.freed_space_history@[i].size),
            ),
            batch: match self.deletion_progress {
                Some(progress) => Some(progress.freed_space),
                None => None,
            },
        }
    }

    /// Whether `after` differs from this session in nothing but the
    /// accounting of deletions: the statuses of the entries, the total, new
    /// credits behind the old ones, and the batch under way, of which only
    /// the freed bytes change unless it ends.
    pub open spec fn accounts_only(&self, after: App) -> bool {
        &&& after == (App {
            directories: after.directories,
            total_freed_space: after.total_freed_space,
            freed_space_history: after.freed_space_history,
            deletion_progress: after.deletion_progress,
            ..*self
        })
        &&& after.directories@.len() == self.directories@.len()
        &&& forall|i: int|
            0 <= i < self.directories@.len() ==> #[trigger] after.directories@[i]
                == (DirectoryInfo {
                deletion_status: after.directories@[i].deletion_status,
                ..self.directories@[i]
            })
        &&& self.freed_space_history@.len() <= after.freed_space_history@.len()
        &&& after.freed_space_history@.take(self.freed_space_history@.len() as int)
            == self.freed_space_history@
        &&& match after.deletion_progress {
            Some(batch) => self.deletion_progress matches Some(before) && batch
                == (DeletionProgress { freed_space: batch.freed_space, ..before }),
            None => true,
        }
    }

    fn set_deletion_status(&mut self, index: usize, status: DeletionStatus)
        ensures
            final(self).ledger() == old(self).ledger().with_status(index, status@),
            old(self).accounts_only(*final(self)),
            final(self).deletion_progress == old(self).deletion_progress,
    {
        if index < self.directories.len() {
            self.directories[index].deletion_status = status;
        }
        proof {
            assert(self.ledger().statuses =~= old(self).ledger().with_status(
                index,
                status@,
            ).statuses);
            assert(self.ledger().sizes =~= old(self).ledger().sizes);
            assert(self.ledger().credits =~= old(self).ledger().credits);
            assert(self.freed_space_history@.take(old(self).freed_space_history@.len() as int)
                =~= old(self).freed_space_history@);
        }
    }

    /// Settles one deletion: a success is credited to the ledger with the
    /// entry's size and marks the entry `Deleted`; a failure marks it with
    /// the error and credits nothing.
    pub fn apply_deletion_result(&mut self, result: DeletionResult)
        ensures
            final(self).ledger() == old(self).ledger().settled(result@),
            old(self).accounts_only(*final(self)),
            old(self).deletion_progress is Some <==> final(self).deletion_progress is Some,
    {
        let ghost before = old(self).ledger();
        if result.index < self.directories.len() {
            if result.success {
                let freed: u64 = self.directories[result.index].size;
                self.total_freed_space = self.total_freed_space.saturating_add(freed);
                self.freed_space_history.push(
                    FreedSpaceEntry { path: result.path, size: freed, timestamp: Instant::now() },
                );
                match &mut self.deletion_progress {
                    Some(batch) => {
                        batch.freed_space = batch.freed_space.saturating_add(freed);
                    },
                    None => {},
                }
                self.directories[result.index].deletion_status = DeletionStatus::Deleted;
                proof {
                    let wanted = before.settled(result@);
                    assert(self.ledger().statuses =~= wanted.statuses);
                    assert(self.ledger().sizes =~= wanted.sizes);
                    assert(self.ledger().credits =~= wanted.credits);
                    assert(self.freed_space_history@.take(
                        old(self).freed_space_history@.len() as int,
                    ) =~= old(self).freed_space_history@);
                }
            } else {
                let message: String = match result.error {
                    Some(message) => message,
                    None => String::from_str("Unknown error"),
                };
                self.directories[result.index].deletion_status = DeletionStatus::Error(message);
                proof {
                    let wanted = before.settled(result@);
                    assert(self.ledger().statuses =~= wanted.statuses);
                    assert(self.ledger().sizes =~= wanted.sizes);
                    assert(self.ledger().credits =~= wanted.credits);
                    assert(self.freed_space_history@.take(
                        old(self).freed_space_history@.len() as int,
                    ) =~= old(self).freed_space_history@);
                }
            }
        } else {
            proof {
                assert(self.freed_space_history@.take(old(self).freed_space_history@.len() as int)
                    =~= old(self).freed_space_history@);
            }
        }
    }

    /// Takes one message from the deletion workers into the session.
    pub fn apply_deletion_message(&mut self, message: DeletionMessage)
        ensures
            final(self).ledger() == old(self).ledger().after(message@),
            old(self).accounts_only(*final(self)),
            old(self).ledger().adds_up() ==> final(self).ledger().adds_up(),
            old(self).ledger().balanced() && old(self).ledger().fair(message@)
                ==> final(self).ledger().balanced(),
            old(self).entries_kept_in(*final(self)),
            old(self).indexed() ==> final(self).indexed(),
            old(self).cursor_valid() ==> final(self).cursor_valid(),
    {
        let ghost start = old(self).ledger();
        proof {
            old(self).lemma_accounts_only_reflexive();
        }
        match message {
            DeletionMessage::StartSingle { index, path: _ } => {
                self.set_deletion_status(index, DeletionStatus::Deleting);
            },
            DeletionMessage::StartMultiple { indices, paths: _ } => {
                let mut k: usize = 0;
                while k < indices.len()
                    invariant
                        k <= indices@.len(),
                        self.ledger() == start.with_deleting(indices@, k as nat),
                        old(self).accounts_only(*self),
                        start == old(self).ledger(),
                    decreases indices@.len() - k,
                {
                    let ghost before = *self;
                    self.set_deletion_status(indices[k], DeletionStatus::Deleting);
                    proof {
                        old(self).lemma_accounts_only_chains(before, *self);
                    }
                    k += 1;
                }
            },
            DeletionMessage::Progress { index, status } => {
                self.set_deletion_status(index, status);
            },
            DeletionMessage::Complete { results } => {
                let ghost views = result_views(results@);
                for result in it: results
                    invariant
                        it.seq() == results@,
                        views == result_views(results@),
                        self.ledger() == start.settled_all(views, it.index() as nat),
                        old(self).accounts_only(*self),
                        start == old(self).ledger(),
                {
                    let ghost before = *self;
                    assert(result@ == views[it.index() as int]);
                    self.apply_deletion_result(result);
                    proof {
                        old(self).lemma_accounts_only_chains(before, *self);
                    }
                }
                self.deletion_progress = None;
                proof {
                    assert(views =~= message@->Complete_results);
                    assert(self.ledger().statuses =~= start.after(message@).statuses);
                    assert(self.ledger().sizes =~= start.after(message@).sizes);
                    assert(self.ledger().credits =~= start.after(message@).credits);
                }
            },
        }
        proof {
            old(self).lemma_accounts_only_keeps_entries(*self);
            if start.adds_up() {
                start.lemma_message_adds_up(message@);
            }
            if start.balanced() && start.fair(message@) {
                start.lemma_message_keeps_balance(message@);
            }
        }
    }

    /// Takes the messages from the deletion workers into the session, in
    /// order. The total stays the sum of the credits; and it stays the sum of
    /// the sizes of the deleted entries as long as no message touches an
    /// entry that is `Deleted` with a size or reports one as `Deleted`
    /// without crediting it.
    pub fn process_deletion_messages(&mut self, messages: Vec<DeletionMessage>)
        ensures
            final(self).ledger() == old(self).ledger().after_all(
                message_views(messages@),
                messages@.len(),
            ),
            old(self).accounts_only(*final(self)),
            old(self).ledger().adds_up() ==> final(self).ledger().adds_up(),
            old(self).ledger().balanced() && old(self).ledger().fair_all(
                message_views(messages@),
                messages@.len(),
            ) ==> final(self).ledger().balanced(),
            old(self).entries_kept_in(*final(self)),
            old(self).indexed() ==> final(self).indexed(),
            old(self).cursor_valid() ==> final(self).cursor_valid(),
    {
        let ghost start = old(self).ledger();
        let ghost views = message_views(messages@);
        proof {
            old(self).lemma_accounts_only_reflexive();
        }
        for message in it: messages
            invariant
                it.seq() == messages@,
                views == message_views(messages@),
                self.ledger() == start.after_all(views, it.index() as nat),
                old(self).accounts_only(*self),
                start == old(self).ledger(),
        {
            let ghost before = *self;
            assert(message@ == views[it.index() as int]);
            self.apply_deletion_message(message);
            proof {
                old(self).lemma_accounts_only_chains(before, *self);
            }
        }
        proof {
            old(self).lemma_accounts_only_keeps_entries(*self);
            start.lemma_messages_keep_laws(views, messages@.len());
        }
    }

    /// No change is a change to the accounting alone.
    pub proof fn lemma_accounts_only_reflexive(&self)
        ensures
            self.accounts_only(*self),
    {
        assert(self.freed_space_history@.take(self.freed_space_history@.len() as int)
            =~= self.freed_space_history@);
    }

    /// Changes to the accounting alone, one after another, are a change to
    /// the accounting alone.
    pub proof fn lemma_accounts_only_chains(&self, middle: App, after: App)
        requires
            self.accounts_only(middle),
            middle.accounts_only(after),
        ensures
            self.accounts_only(after),
    {
        let n = self.freed_space_history@.len() as int;
        let m = middle.freed_space_history@.len() as int;
        assert(after.freed_space_history@.take(n) =~= self.freed_space_history@) by {
            assert forall|i: int| 0 <= i < n implies after.freed_space_history@[i]
                == self.freed_space_history@[i] by {
                assert(after.freed_space_history@.take(m)[i] == middle.freed_space_history@[i]);
                assert(middle.freed_space_history@.take(n)[i] == self.freed_space_history@[i]);
            }
        }
    }

    /// A change to the accounting keeps every entry at its place, with its
    /// path.
    pub proof fn lemma_accounts_only_keeps_entries(&self, after: App)
        requires
            self.accounts_only(after),
        ensures
            self.entries_kept_in(after),
            self.indexed() ==> after.indexed(),
    {
        assert(after.paths() =~= self.paths());
        assert(after.paths().take(self.paths().len() as int) =~= self.paths());
    }

    /// Admitting pending paths leaves the books as they are: the total and
    /// the credits are untouched, and the new entries are not `Deleted`.
    pub proof fn lemma_promotion_keeps_books(&self, after: App, count: nat)
        requires
            self.promotes(after, count),
        ensures
            self.ledger().adds_up() ==> after.ledger().adds_up(),
            self.ledger().balanced() ==> after.ledger().balanced(),
    {
        let before = self.ledger();
        let then = after.ledger();
        let len = self.directories@.len();
        assert(then.credits =~= before.credits);
        assert forall|i: int| 0 <= i < len implies then.statuses[i] == before.statuses[i]
            && then.sizes[i] == before.sizes[i] by {
            assert(after.directories@.take(len as int)[i] == after.directories@[i]);
        }
        lemma_sum_deleted_of_prefix(
            before.statuses,
            before.sizes,
            then.statuses,
            then.sizes,
            len,
        );
        assert forall|i: int| len <= i < then.len() implies !(then.statuses[i] is Deleted) by {
            assert(after.directories@[len + (i - len)].is_fresh(
                self.pending_directories@[i - len]@,
            ));
        }
        lemma_sum_deleted_skips(then.statuses, then.sizes, len, then.len());
    }

    /// Taking a found path in leaves the books as they are, whether or not
    /// a batch is admitted with it.
    pub proof fn lemma_found_keeps_books(&self, after: App, path: String)
        requires
            self.takes_found(after, path),
        ensures
            self.ledger().adds_up() ==> after.ledger().adds_up(),
            self.ledger().balanced() ==> after.ledger().balanced(),
    {
        let before = self.ledger();
        let then = after.ledger();
        let len = self.directories@.len();
        let pending = self.pending_directories@.push(path);
        assert(then.credits =~= before.credits);
        if pending.len() >= self.batch_size {
            assert forall|i: int| 0 <= i < len implies then.statuses[i] == before.statuses[i]
                && then.sizes[i] == before.sizes[i] by {
                assert(after.directories@.take(len as int)[i] == after.directories@[i]);
            }
            lemma_sum_deleted_of_prefix(
                before.statuses,
                before.sizes,
                then.statuses,
                then.sizes,
                len,
            );
            assert forall|i: int| len <= i < then.len() implies !(then.statuses[i] is Deleted) by {
                assert(after.directories@[len + (i - len)].is_fresh(pending[i - len]@));
            }
            lemma_sum_deleted_skips(then.statuses, then.sizes, len, then.len());
        } else {
            assert(then.statuses =~= before.statuses);
            assert(then.sizes =~= before.sizes);
        }
    }

    /// A size update leaves the total equal to the sum of the credits, and
    /// equal to the sum of the sizes of the deleted entries unless it gives
    /// another size to an entry that is `Deleted`.
    pub proof fn lemma_size_update_keeps_books(&self, after: App, at: int, size: u64, duration: u64)
        requires
            self.size_written(after, at, size, duration),
        ensures
            self.ledger().adds_up() ==> after.ledger().adds_up(),
            self.ledger().balanced() && (!(self.directories@[at].deletion_status is Deleted)
                || self.directories@[at].size == size) ==> after.ledger().balanced(),
    {
        let before = self.ledger();
        let then = after.ledger();
        assert(then.credits =~= before.credits);
        assert(then.statuses =~= before.statuses);
        lemma_sum_deleted_of_changed(
            before.statuses,
            before.sizes,
            then.statuses,
            then.sizes,
            at,
            before.len(),
        );
    }
}

} // verus!
