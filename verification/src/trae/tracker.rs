//! The task cache of the editor and the decisions of its sync loop: each
//! poll hands in the rows read from the sidebar and gets back the events to
//! dispatch; the loop itself (reading the page, running actions, sleeping)
//! stays with the caller.

use vstd::prelude::*;
use std::collections::HashMap;
use crate::trae::editor::{
    collect_pending_retry_events, fresh_count, index_of_task_id, first_position_of_id,
    lemma_reconciled_ids_distinct, reconcile_task_snapshots, reconciled_origin,
    reconciled_task, retry_sweep, task_ids_below, task_ids_distinct, tasks_from_rows,
    PendingUiActionRetry, TaskListHint, TaskRow,
};
use crate::trae::types::{
    is_retryable_status, InitialTaskPolicy, TaskStatusChangeEvent, TraeTask, TraeTaskStatus,
};
use crate::trae::workflow::{diff_task_status_changes, status_change_events};

verus! {

/// Each task stands at the position that its `index` names.
pub open spec fn tasks_positioned(tasks: Seq<TraeTask>) -> bool {
    forall|i: int| 0 <= i < tasks.len() ==> #[trigger] tasks[i].index == i
}

/// The previous position that each latest row continues.
pub open spec fn refresh_origins(
    previous: Seq<TraeTask>,
    rows_len: nat,
    hint: Option<TaskListHint>,
) -> Seq<Option<usize>> {
    Seq::new(rows_len, |row: int| reconciled_origin(previous, rows_len, hint, row))
}

/// The reconciled task list for `rows` after `previous`.
pub open spec fn refreshed_tasks(
    previous: Seq<TraeTask>,
    rows: Seq<TaskRow>,
    hint: Option<TaskListHint>,
    next_task_id: u64,
) -> Seq<TraeTask> {
    let origins = refresh_origins(previous, rows.len(), hint);
    Seq::new(rows.len(), |row: int| reconciled_task(previous, origins, rows, next_task_id, row))
}

/// The events of the first snapshot: one per task that `policy` selects, with
/// no previous status.
pub open spec fn bootstrap_events(tasks: Seq<TraeTask>, policy: InitialTaskPolicy) -> Seq<
    TaskStatusChangeEvent,
>
    decreases tasks.len(),
{
    if tasks.len() == 0 {
        Seq::empty()
    } else {
        let before = bootstrap_events(tasks.drop_last(), policy);
        if policy.spec_should_emit(tasks.last().status) {
            before.push(TaskStatusChangeEvent { task: tasks.last(), previous_status: None })
        } else {
            before
        }
    }
}

/// The pending retries after an action ran for `event`: a task stuck in a
/// retryable status gets a first attempt recorded, unless it already has an
/// entry for that status.
pub open spec fn pending_after_dispatch(
    pending: Map<u64, PendingUiActionRetry>,
    event: TaskStatusChangeEvent,
) -> Map<u64, PendingUiActionRetry> {
    let id = event.task.task_id;
    let status = event.task.status;
    if is_retryable_status(status) && !(pending.contains_key(id) && pending[id].status == status) {
        pending.insert(id, PendingUiActionRetry { status, attempts: 1, warned: false })
    } else {
        pending
    }
}

/// Whether the first snapshot raises an event for a task in `status`: never
/// under `Ignore`, always under `EmitAll`, and for an interrupted task or one
/// waiting for a human under `EmitTerminalAndWaiting`.
pub open spec fn selected_at_start(policy: InitialTaskPolicy, status: TraeTaskStatus) -> bool {
    match policy {
        InitialTaskPolicy::Ignore => false,
        InitialTaskPolicy::EmitAll => true,
        InitialTaskPolicy::EmitTerminalAndWaiting => status == TraeTaskStatus::Interrupted
            || status == TraeTaskStatus::WaitingForHITL,
    }
}

/// The first snapshot raises exactly one event per task that the policy
/// selects, in list order and with no previous status: the events are the
/// selected tasks, each wrapped in an event, and nothing else.
pub proof fn lemma_bootstrap_events_are_the_selected_tasks(
    tasks: Seq<TraeTask>,
    policy: InitialTaskPolicy,
)
    ensures
        bootstrap_events(tasks, policy) == tasks.filter(
            |t: TraeTask| selected_at_start(policy, t.status),
        ).map_values(|t: TraeTask| TaskStatusChangeEvent { task: t, previous_status: None }),
    decreases tasks.len(),
{
    reveal(Seq::filter);
    let pred = |t: TraeTask| selected_at_start(policy, t.status);
    let wrap = |t: TraeTask| TaskStatusChangeEvent { task: t, previous_status: None };
    if tasks.len() == 0 {
        assert(tasks.filter(pred) =~= Seq::<TraeTask>::empty());
        assert(tasks.filter(pred).map_values(wrap) =~= Seq::<TaskStatusChangeEvent>::empty());
    } else {
        lemma_bootstrap_events_are_the_selected_tasks(tasks.drop_last(), policy);
        let sub = tasks.drop_last().filter(pred);
        assert(tasks.filter(pred) == (if pred(tasks.last()) {
            sub.push(tasks.last())
        } else {
            sub
        }));
        if pred(tasks.last()) {
            assert(sub.push(tasks.last()).map_values(wrap) =~= sub.map_values(wrap).push(
                wrap(tasks.last()),
            ));
        }
    }
}

/// Dispatching the actions for a task stuck in `Interrupted` or
/// `WaitingForHITL` records it for retries: its id then has an entry for that
/// status, a first attempt unless an entry for that status was already there
/// (which is kept). An event in another status leaves the retries as they
/// were, and the entries of other tasks never change.
pub proof fn lemma_dispatch_records_stuck_tasks(
    pending: Map<u64, PendingUiActionRetry>,
    event: TaskStatusChangeEvent,
)
    ensures
        ({
            let after = pending_after_dispatch(pending, event);
            let id = event.task.task_id;
            let status = event.task.status;
            &&& (status == TraeTaskStatus::Interrupted || status == TraeTaskStatus::WaitingForHITL)
                ==> {
                &&& after.contains_key(id)
                &&& after[id].status == status
                &&& if pending.contains_key(id) && pending[id].status == status {
                    after[id] == pending[id]
                } else {
                    after[id] == (PendingUiActionRetry { status, attempts: 1, warned: false })
                }
            }
            &&& !(status == TraeTaskStatus::Interrupted || status == TraeTaskStatus::WaitingForHITL)
                ==> after == pending
            &&& forall|k: u64|
                k != id ==> (after.contains_key(k) == pending.contains_key(k) && (
                pending.contains_key(k) ==> after[k] == pending[k]))
        }),
{
}

/// Cached tasks of the sidebar with their identities, the hint for the next
/// refresh, and the retries that wait for a stuck task.
#[derive(Debug)]
pub struct TaskTracker {
    tasks: Vec<TraeTask>,
    next_task_id: u64,
    hint: Option<TaskListHint>,
    pending_retries: HashMap<u64, PendingUiActionRetry>,
    max_task_action_retry: u32,
}

/// A task that was sent follow-up input and jumped to the front keeps its id:
/// row 0 of the next list is that task.
pub proof fn lemma_moved_task_keeps_identity(
    previous: Seq<TraeTask>,
    rows: Seq<TaskRow>,
    task_id: u64,
    next_task_id: u64,
)
    requires
        first_position_of_id(previous, task_id) is Some,
        rows.len() > 0,
        previous.len() <= usize::MAX,
    ensures
        refreshed_tasks(
            previous,
            rows,
            Some(TaskListHint::MoveTaskToFront { task_id }),
            next_task_id,
        )[0].task_id == task_id,
{
    crate::trae::editor::lemma_first_position_spec(previous, task_id);
}

/// A task created by this process stands at the front of the next list with a
/// fresh id, one that no previous task has.
pub proof fn lemma_new_task_gets_fresh_identity(
    previous: Seq<TraeTask>,
    rows: Seq<TaskRow>,
    next_task_id: u64,
)
    requires
        rows.len() > 0,
        task_ids_below(previous, next_task_id),
    ensures
        ({
            let latest = refreshed_tasks(
                previous,
                rows,
                Some(TaskListHint::NewTaskAtFront),
                next_task_id,
            );
            &&& latest[0].task_id == next_task_id
            &&& forall|k: int| 0 <= k < previous.len() ==> previous[k].task_id != latest[0].task_id
        }),
{
    let origins = refresh_origins(previous, rows.len(), Some(TaskListHint::NewTaskAtFront));
    assert(origins.take(0) =~= Seq::<Option<usize>>::empty());
}

/// Without a hint, a list of unchanged length keeps every identity in place,
/// so tasks with the same title stay distinct.
pub proof fn lemma_stable_list_keeps_identities(
    previous: Seq<TraeTask>,
    rows: Seq<TaskRow>,
    next_task_id: u64,
)
    requires
        rows.len() == previous.len(),
        previous.len() <= usize::MAX,
    ensures
        forall|i: int|
            0 <= i < rows.len() ==> #[trigger] refreshed_tasks(
                previous,
                rows,
                None,
                next_task_id,
            )[i].task_id == previous[i].task_id,
{
}

/// Without a hint, growth of the list by `g` rows means `g` new tasks at the
/// front, with fresh ids in row order, and the others keep their ids.
pub proof fn lemma_growth_means_new_tasks_at_front(
    previous: Seq<TraeTask>,
    rows: Seq<TaskRow>,
    next_task_id: u64,
)
    requires
        rows.len() > previous.len(),
        rows.len() <= usize::MAX,
        next_task_id + rows.len() <= u64::MAX,
    ensures
        ({
            let g = rows.len() - previous.len();
            let latest = refreshed_tasks(previous, rows, None, next_task_id);
            &&& forall|i: int| 0 <= i < g ==> #[trigger] latest[i].task_id == next_task_id + i
            &&& forall|i: int|
                g <= i < rows.len() ==> #[trigger] latest[i].task_id == previous[i - g].task_id
        }),
{
    let g = rows.len() - previous.len();
    let origins = refresh_origins(previous, rows.len(), None);
    assert forall|i: int| 0 <= i <= g implies #[trigger] fresh_count(origins.take(i)) == i by {
        lemma_fresh_prefix(origins, i, g);
    }
    let latest = refreshed_tasks(previous, rows, None, next_task_id);
    assert forall|i: int| 0 <= i < g implies #[trigger] latest[i].task_id == next_task_id + i by {
        assert(fresh_count(origins.take(i)) == i);
    }
}

proof fn lemma_fresh_prefix(origins: Seq<Option<usize>>, i: int, g: int)
    requires
        0 <= i <= g <= origins.len(),
        forall|k: int| 0 <= k < g ==> #[trigger] origins[k] is None,
    ensures
        fresh_count(origins.take(i)) == i,
    decreases i,
{
    if i > 0 {
        assert(origins.take(i).drop_last() =~= origins.take(i - 1));
        lemma_fresh_prefix(origins, i - 1, g);
    } else {
        assert(origins.take(0) =~= Seq::<Option<usize>>::empty());
    }
}

impl TaskTracker {
    pub closed spec fn spec_tasks(&self) -> Seq<TraeTask> {
        self.tasks@
    }

    pub closed spec fn spec_next_task_id(&self) -> u64 {
        self.next_task_id
    }

    pub closed spec fn spec_hint(&self) -> Option<TaskListHint> {
        self.hint
    }

    pub closed spec fn spec_pending(&self) -> Map<u64, PendingUiActionRetry> {
        self.pending_retries@
    }

    pub closed spec fn spec_max_retry(&self) -> u32 {
        self.max_task_action_retry
    }

    /// Ids are distinct, below the next id to hand out, and each task stands
    /// at its own index. Every tracker is well formed (the type invariant), and
    /// each operation that changes one states it again of the result.
    pub open spec fn well_formed(&self) -> bool {
        &&& task_ids_distinct(self.spec_tasks())
        &&& task_ids_below(self.spec_tasks(), self.spec_next_task_id())
        &&& tasks_positioned(self.spec_tasks())
    }

    #[verifier::type_invariant]
    spec fn wf(&self) -> bool {
        self.well_formed()
    }

    /// An empty cache; actions on a stuck task are tried `max_task_action_retry`
    /// times.
    pub fn new(max_task_action_retry: u32) -> (r: TaskTracker)
        ensures
            r.well_formed(),
            r.spec_tasks() == Seq::<TraeTask>::empty(),
            r.spec_next_task_id() == 0,
            r.spec_hint() is None,
            r.spec_pending() == Map::<u64, PendingUiActionRetry>::empty(),
            r.spec_max_retry() == max_task_action_retry,
    {
        TaskTracker {
            tasks: Vec::new(),
            next_task_id: 0,
            hint: None,
            pending_retries: HashMap::new(),
            max_task_action_retry,
        }
    }

    /// The id that the next new task gets.
    pub fn next_task_id(&self) -> (r: u64)
        ensures
            r == self.spec_next_task_id(),
    {
        self.next_task_id
    }

    /// A copy of the cached tasks.
    pub fn cached_tasks(&self) -> (r: Vec<TraeTask>)
        ensures
            r@ == self.spec_tasks(),
    {
        let mut out: Vec<TraeTask> = Vec::new();
        let n = self.tasks.len();
        let mut i: usize = 0;
        while i < n
            invariant
                n == self.tasks@.len(),
                i <= n,
                out@ == self.tasks@.take(i as int),
            decreases n - i,
        {
            out.push(self.tasks[i].clone());
            i = i + 1;
            assert(out@ =~= self.tasks@.take(i as int));
        }
        assert(self.tasks@.take(n as int) =~= self.tasks@);
        out
    }

    /// Records what the next refresh is known to show.
    pub fn set_task_list_hint(&mut self, hint: TaskListHint)
        ensures
            final(self).well_formed(),
            final(self).spec_hint() == Some(hint),
            final(self).spec_tasks() == old(self).spec_tasks(),
            final(self).spec_next_task_id() == old(self).spec_next_task_id(),
            final(self).spec_pending() == old(self).spec_pending(),
            final(self).spec_max_retry() == old(self).spec_max_retry(),
    {
        proof {
            use_type_invariant(&*self);
        }
        self.hint = Some(hint);
    }

    /// The current position of the task with id `task_id`.
    pub fn index_of(&self, task_id: u64) -> (r: Option<usize>)
        ensures
            match r {
                Some(i) => first_position_of_id(self.spec_tasks(), task_id) == Some(i as int),
                None => first_position_of_id(self.spec_tasks(), task_id) is None,
            },
    {
        index_of_task_id(self.tasks.as_slice(), task_id)
    }

    /// Records that follow-up input was sent to the task with id `task_id`: if
    /// it is finished or interrupted, it will stand at the front.
    pub fn note_follow_up_sent(&mut self, task_id: u64)
        ensures
            final(self).well_formed(),
            final(self).spec_hint() == (match first_position_of_id(old(self).spec_tasks(), task_id) {
                Some(i) => {
                    let t = old(self).spec_tasks()[i];
                    if t.status == TraeTaskStatus::Finished || t.status
                        == TraeTaskStatus::Interrupted {
                        Some(TaskListHint::MoveTaskToFront { task_id: t.task_id })
                    } else {
                        old(self).spec_hint()
                    }
                },
                None => old(self).spec_hint(),
            }),
            final(self).spec_tasks() == old(self).spec_tasks(),
            final(self).spec_next_task_id() == old(self).spec_next_task_id(),
            final(self).spec_pending() == old(self).spec_pending(),
            final(self).spec_max_retry() == old(self).spec_max_retry(),
    {
        proof {
            use_type_invariant(&*self);
        }
        match index_of_task_id(self.tasks.as_slice(), task_id) {
            Some(i) => {
                match TaskListHint::after_follow_up(&self.tasks[i]) {
                    Some(h) => {
                        self.hint = Some(h);
                    },
                    None => {},
                }
            },
            None => {},
        }
    }

    /// Reconciles `rows` against the cache, consuming the hint, and stores the
    /// result; returns the new tasks and the previous ones.
    fn reconcile_rows(&mut self, rows: &[TaskRow]) -> (r: Vec<TraeTask>)
        requires
            old(self).spec_next_task_id() + rows@.len() <= u64::MAX,
        ensures
            r@ == old(self).spec_tasks(),
            final(self).spec_tasks() == refreshed_tasks(
                old(self).spec_tasks(),
                rows@,
                old(self).spec_hint(),
                old(self).spec_next_task_id(),
            ),
            final(self).spec_next_task_id() == old(self).spec_next_task_id() + fresh_count(
                refresh_origins(old(self).spec_tasks(), rows@.len(), old(self).spec_hint()),
            ),
            final(self).spec_hint() is None,
            final(self).spec_pending() == old(self).spec_pending(),
            final(self).spec_max_retry() == old(self).spec_max_retry(),
    {
        proof {
            use_type_invariant(&*self);
        }
        let ghost prev = self.tasks@;
        let origins = reconcile_task_snapshots(self.tasks.as_slice(), rows.len(), self.hint);
        let (latest, next) = tasks_from_rows(
            self.tasks.as_slice(),
            origins.as_slice(),
            rows,
            self.next_task_id,
        );
        proof {
            let expected_origins = refresh_origins(prev, rows@.len(), self.hint);
            assert(origins@ =~= expected_origins);
            lemma_reconciled_ids_distinct(prev, origins@, rows@, self.next_task_id);
            let expected = refreshed_tasks(prev, rows@, self.hint, self.next_task_id);
            assert(latest@ =~= expected);
        }
        let mut previous = latest;
        self.next_task_id = next;
        std::mem::swap(&mut self.tasks, &mut previous);
        self.hint = None;
        previous
    }

    /// The tasks that `rows` would become, with their ids, without storing
    /// them or consuming the hint.
    pub fn reconciled_view(&self, rows: &[TaskRow]) -> (r: Vec<TraeTask>)
        requires
            self.spec_next_task_id() + rows@.len() <= u64::MAX,
        ensures
            r@ == refreshed_tasks(
                self.spec_tasks(),
                rows@,
                self.spec_hint(),
                self.spec_next_task_id(),
            ),
    {
        proof {
            use_type_invariant(self);
        }
        let origins = reconcile_task_snapshots(self.tasks.as_slice(), rows.len(), self.hint);
        let (latest, _next) = tasks_from_rows(
            self.tasks.as_slice(),
            origins.as_slice(),
            rows,
            self.next_task_id,
        );
        proof {
            let expected_origins = refresh_origins(self.tasks@, rows@.len(), self.hint);
            assert(origins@ =~= expected_origins);
            let expected = refreshed_tasks(self.tasks@, rows@, self.hint, self.next_task_id);
            assert(latest@ =~= expected);
        }
        latest
    }

    /// Stores the latest rows without raising events, and returns the tasks.
    pub fn refresh_tasks(&mut self, rows: &[TaskRow]) -> (r: Vec<TraeTask>)
        requires
            old(self).spec_next_task_id() + rows@.len() <= u64::MAX,
        ensures
            final(self).well_formed(),
            r@ == final(self).spec_tasks(),
            final(self).spec_tasks() == refreshed_tasks(
                old(self).spec_tasks(),
                rows@,
                old(self).spec_hint(),
                old(self).spec_next_task_id(),
            ),
            final(self).spec_next_task_id() == old(self).spec_next_task_id() + fresh_count(
                refresh_origins(old(self).spec_tasks(), rows@.len(), old(self).spec_hint()),
            ),
            final(self).spec_hint() is None,
            final(self).spec_pending() == old(self).spec_pending(),
            final(self).spec_max_retry() == old(self).spec_max_retry(),
    {
        let _ = self.reconcile_rows(rows);
        proof {
            use_type_invariant(&*self);
        }
        self.cached_tasks()
    }

    /// The first snapshot: stores the tasks and raises an event, with no
    /// previous status, for each task that `policy` selects.
    pub fn bootstrap(&mut self, rows: &[TaskRow], policy: InitialTaskPolicy) -> (r: Vec<
        TaskStatusChangeEvent,
    >)
        requires
            old(self).spec_next_task_id() + rows@.len() <= u64::MAX,
        ensures
            final(self).well_formed(),
            final(self).spec_tasks() == refreshed_tasks(
                old(self).spec_tasks(),
                rows@,
                old(self).spec_hint(),
                old(self).spec_next_task_id(),
            ),
            r@ == bootstrap_events(final(self).spec_tasks(), policy),
            final(self).spec_next_task_id() == old(self).spec_next_task_id() + fresh_count(
                refresh_origins(old(self).spec_tasks(), rows@.len(), old(self).spec_hint()),
            ),
            final(self).spec_hint() is None,
            final(self).spec_pending() == old(self).spec_pending(),
            final(self).spec_max_retry() == old(self).spec_max_retry(),
    {
        let _ = self.reconcile_rows(rows);
        proof {
            use_type_invariant(&*self);
        }
        let mut events: Vec<TaskStatusChangeEvent> = Vec::new();
        let n = self.tasks.len();
        let mut i: usize = 0;
        while i < n
            invariant
                n == self.tasks@.len(),
                i <= n,
                events@ == bootstrap_events(self.tasks@.take(i as int), policy),
            decreases n - i,
        {
            proof {
                assert(self.tasks@.take(i + 1).drop_last() =~= self.tasks@.take(i as int));
            }
            if policy.should_emit(self.tasks[i].status) {
                events.push(
                    TaskStatusChangeEvent { task: self.tasks[i].clone(), previous_status: None },
                );
            }
            i = i + 1;
        }
        assert(self.tasks@.take(n as int) =~= self.tasks@);
        events
    }

    /// A poll: reconciles `rows`, then returns the status changes against the
    /// previous list followed by the re-raised events of stuck tasks, and the
    /// tasks to warn about because their retries ran out.
    pub fn refresh_with_events(&mut self, rows: &[TaskRow]) -> (r: (
        Vec<TaskStatusChangeEvent>,
        Vec<TraeTask>,
    ))
        requires
            old(self).spec_next_task_id() + rows@.len() <= u64::MAX,
        ensures
            final(self).well_formed(),
            final(self).spec_tasks() == refreshed_tasks(
                old(self).spec_tasks(),
                rows@,
                old(self).spec_hint(),
                old(self).spec_next_task_id(),
            ),
            ({
                let sweep = retry_sweep(
                    final(self).spec_tasks(),
                    old(self).spec_pending(),
                    old(self).spec_max_retry(),
                );
                &&& r.0@ == status_change_events(old(self).spec_tasks(), final(self).spec_tasks())
                    + sweep.0
                &&& r.1@ == sweep.1
                &&& final(self).spec_pending() == sweep.2
            }),
            final(self).spec_next_task_id() == old(self).spec_next_task_id() + fresh_count(
                refresh_origins(old(self).spec_tasks(), rows@.len(), old(self).spec_hint()),
            ),
            final(self).spec_hint() is None,
            final(self).spec_max_retry() == old(self).spec_max_retry(),
    {
        let previous = self.reconcile_rows(rows);
        let mut events = diff_task_status_changes(previous.as_slice(), self.tasks.as_slice());
        proof {
            use_type_invariant(&*self);
        }
        let mut pending: HashMap<u64, PendingUiActionRetry> = HashMap::new();
        std::mem::swap(&mut pending, &mut self.pending_retries);
        let (mut retried, warned) = collect_pending_retry_events(
            self.tasks.as_slice(),
            &mut pending,
            self.max_task_action_retry,
        );
        self.pending_retries = pending;
        events.append(&mut retried);
        (events, warned)
    }

    /// Records that the actions for `event` were dispatched, so that they are
    /// tried again while the task stays stuck.
    pub fn note_dispatched(&mut self, event: &TaskStatusChangeEvent)
        ensures
            final(self).well_formed(),
            final(self).spec_pending() == pending_after_dispatch(old(self).spec_pending(), *event),
            final(self).spec_tasks() == old(self).spec_tasks(),
            final(self).spec_next_task_id() == old(self).spec_next_task_id(),
            final(self).spec_hint() == old(self).spec_hint(),
            final(self).spec_max_retry() == old(self).spec_max_retry(),
    {
        proof {
            use_type_invariant(&*self);
        }
        broadcast use vstd::std_specs::hash::group_hash_axioms;

        let status = event.task.status;
        if matches!(status, TraeTaskStatus::Interrupted | TraeTaskStatus::WaitingForHITL) {
            let known = match self.pending_retries.get(&event.task.task_id) {
                Some(entry) => entry.status == status,
                None => false,
            };
            if !known {
                let mut pending: HashMap<u64, PendingUiActionRetry> = HashMap::new();
                std::mem::swap(&mut pending, &mut self.pending_retries);
                pending.insert(
                    event.task.task_id,
                    PendingUiActionRetry { status, attempts: 1, warned: false },
                );
                self.pending_retries = pending;
            }
        }
    }
}

} // verus!
