//! Status diffing between two reconciled task lists, keyed by task id.

use vstd::prelude::*;
use crate::trae::editor::task_ids_distinct;
use crate::trae::types::{ActionChain, ActionOp, TaskStatusChangeEvent, TraeTask, TraeTaskStatus};

verus! {

/// The last task of `tasks` with id `id`: the one that a map built from
/// `tasks`, later entries overwriting earlier ones, holds for `id`.
pub open spec fn last_task_with_id(tasks: Seq<TraeTask>, id: u64) -> Option<TraeTask>
    decreases tasks.len(),
{
    if tasks.len() == 0 {
        None
    } else if tasks.last().task_id == id {
        Some(tasks.last())
    } else {
        last_task_with_id(tasks.drop_last(), id)
    }
}

/// The event, if any, that `task` of the latest list raises against `previous`:
/// a known task raises one when its status changed; a new task raises one when
/// it is already terminal or waiting for a human.
pub open spec fn status_change_event(previous: Seq<TraeTask>, task: TraeTask) -> Option<
    TaskStatusChangeEvent,
> {
    match last_task_with_id(previous, task.task_id) {
        Some(p) => if p.status != task.status {
            Some(TaskStatusChangeEvent { task, previous_status: Some(p.status) })
        } else {
            None
        },
        None => if task.status == TraeTaskStatus::Interrupted || task.status
            == TraeTaskStatus::Finished || task.status == TraeTaskStatus::WaitingForHITL {
            Some(TaskStatusChangeEvent { task, previous_status: None })
        } else {
            None
        },
    }
}

/// The events of `latest` against `previous`, in the order of `latest`.
pub open spec fn status_change_events(previous: Seq<TraeTask>, latest: Seq<TraeTask>) -> Seq<
    TaskStatusChangeEvent,
>
    decreases latest.len(),
{
    if latest.len() == 0 {
        Seq::empty()
    } else {
        let before = status_change_events(previous, latest.drop_last());
        match status_change_event(previous, latest.last()) {
            Some(e) => before.push(e),
            None => before,
        }
    }
}

/// Position of the last task of `tasks` with id `id`.
fn find_last_with_id(tasks: &[TraeTask], id: u64) -> (r: Option<usize>)
    ensures
        match r {
            Some(i) => i < tasks@.len() && last_task_with_id(tasks@, id) == Some(tasks@[i as int]),
            None => last_task_with_id(tasks@, id) is None,
        },
{
    let mut j: usize = tasks.len();
    assert(tasks@.take(j as int) =~= tasks@);
    while j > 0
        invariant
            j <= tasks@.len(),
            last_task_with_id(tasks@, id) == last_task_with_id(tasks@.take(j as int), id),
        decreases j,
    {
        assert(tasks@.take(j as int).drop_last() =~= tasks@.take(j - 1));
        if tasks[j - 1].task_id == id {
            return Some(j - 1);
        }
        j = j - 1;
    }
    None
}

/// Compares the previous reconciled task list with the latest one.
///
/// Identity comes from `task_id`, not from the title or the position, so two
/// tasks with the same title raise two independent events.
pub fn diff_task_status_changes(previous: &[TraeTask], latest: &[TraeTask]) -> (r: Vec<
    TaskStatusChangeEvent,
>)
    ensures
        r@ == status_change_events(previous@, latest@),
{
    let mut events: Vec<TaskStatusChangeEvent> = Vec::new();
    let n = latest.len();
    let mut i: usize = 0;
    while i < n
        invariant
            n == latest@.len(),
            i <= n,
            events@ == status_change_events(previous@, latest@.take(i as int)),
        decreases n - i,
    {
        let task = &latest[i];
        proof {
            assert(latest@.take(i + 1).drop_last() =~= latest@.take(i as int));
        }
        match find_last_with_id(previous, task.task_id) {
            Some(k) => {
                if previous[k].status != task.status {
                    events.push(
                        TaskStatusChangeEvent {
                            task: task.clone(),
                            previous_status: Some(previous[k].status),
                        },
                    );
                }
            },
            None => {
                if task.is_terminal() || task.is_waiting_for_hitl() {
                    events.push(TaskStatusChangeEvent { task: task.clone(), previous_status: None });
                }
            },
        }
        i = i + 1;
    }
    assert(latest@.take(n as int) =~= latest@);
    events
}

proof fn lemma_last_with_distinct_id(tasks: Seq<TraeTask>, i: int)
    requires
        0 <= i < tasks.len(),
        forall|a: int, b: int|
            0 <= a < tasks.len() && 0 <= b < tasks.len() && a != b ==> #[trigger] tasks[a].task_id
                != #[trigger] tasks[b].task_id,
    ensures
        last_task_with_id(tasks, tasks[i].task_id) == Some(tasks[i]),
    decreases tasks.len(),
{
    if i < tasks.len() - 1 {
        let d = tasks.drop_last();
        assert(tasks.last().task_id != tasks[i].task_id);
        assert(d[i] == tasks[i]);
        lemma_last_with_distinct_id(d, i);
    }
}

/// A list diffed against itself raises no event when no two of its tasks share
/// an id: only a change of status (or a new task) raises one.
pub proof fn lemma_unchanged_list_raises_no_events(tasks: Seq<TraeTask>)
    requires
        forall|a: int, b: int|
            0 <= a < tasks.len() && 0 <= b < tasks.len() && a != b ==> #[trigger] tasks[a].task_id
                != #[trigger] tasks[b].task_id,
    ensures
        status_change_events(tasks, tasks) == Seq::<TaskStatusChangeEvent>::empty(),
{
    assert forall|j: int| 0 <= j <= tasks.len() implies #[trigger] status_change_events(
        tasks,
        tasks.take(j),
    ) == Seq::<TaskStatusChangeEvent>::empty() by {
        lemma_prefix_raises_no_events(tasks, j);
    }
    assert(tasks.take(tasks.len() as int) =~= tasks);
}

proof fn lemma_prefix_raises_no_events(tasks: Seq<TraeTask>, j: int)
    requires
        0 <= j <= tasks.len(),
        forall|a: int, b: int|
            0 <= a < tasks.len() && 0 <= b < tasks.len() && a != b ==> #[trigger] tasks[a].task_id
                != #[trigger] tasks[b].task_id,
    ensures
        status_change_events(tasks, tasks.take(j)) == Seq::<TaskStatusChangeEvent>::empty(),
    decreases j,
{
    if j > 0 {
        assert(tasks.take(j).drop_last() =~= tasks.take(j - 1));
        lemma_prefix_raises_no_events(tasks, j - 1);
        lemma_last_with_distinct_id(tasks, j - 1);
    }
}

/// Every event is about a task of the latest list; it carries a previous
/// status exactly when a task with its id was in the previous list, and that
/// status then differs from the current one.
pub proof fn lemma_events_describe_changes(previous: Seq<TraeTask>, latest: Seq<TraeTask>)
    ensures
        forall|k: int|
            0 <= k < status_change_events(previous, latest).len() ==> {
                let e = #[trigger] status_change_events(previous, latest)[k];
                &&& latest.contains(e.task)
                &&& match last_task_with_id(previous, e.task.task_id) {
                    Some(p) => e.previous_status == Some(p.status) && p.status != e.task.status,
                    None => e.previous_status is None,
                }
            },
    decreases latest.len(),
{
    if latest.len() > 0 {
        let d = latest.drop_last();
        lemma_events_describe_changes(previous, d);
        let before = status_change_events(previous, d);
        assert forall|k: int| 0 <= k < before.len() implies latest.contains(#[trigger] before[k].task) by {
            let i = choose|i: int| 0 <= i < d.len() && d[i] == before[k].task;
            assert(latest[i] == d[i]);
        }
        assert(latest[latest.len() - 1] == latest.last());
    }
}

/// `reordered` is `previous` put in another order by the bijection `perm` of
/// its positions: task `i` of `reordered` has the id and status of task
/// `perm[i]` of `previous`, while its title, index and selection may differ.
pub open spec fn reorders_by_id(previous: Seq<TraeTask>, reordered: Seq<TraeTask>, perm: Seq<int>) -> bool {
    &&& reordered.len() == previous.len()
    &&& perm.len() == previous.len()
    &&& forall|i: int|
        0 <= i < perm.len() ==> {
            &&& 0 <= #[trigger] perm[i] < previous.len()
            &&& reordered[i].task_id == previous[perm[i]].task_id
            &&& reordered[i].status == previous[perm[i]].status
        }
    &&& forall|i: int, j: int|
        0 <= i < perm.len() && 0 <= j < perm.len() && i != j ==> #[trigger] perm[i]
            != #[trigger] perm[j]
    &&& forall|k: int|
        #![trigger previous[k]]
        0 <= k < previous.len() ==> exists|i: int| 0 <= i < perm.len() && #[trigger] perm[i] == k
}

proof fn lemma_no_task_with_id(tasks: Seq<TraeTask>, id: u64)
    requires
        forall|i: int| 0 <= i < tasks.len() ==> #[trigger] tasks[i].task_id != id,
    ensures
        last_task_with_id(tasks, id) is None,
    decreases tasks.len(),
{
    if tasks.len() > 0 {
        let d = tasks.drop_last();
        assert(tasks[tasks.len() - 1].task_id != id);
        assert forall|i: int| 0 <= i < d.len() implies #[trigger] d[i].task_id != id by {
            assert(d[i] == tasks[i]);
        }
        lemma_no_task_with_id(d, id);
    }
}

proof fn lemma_reordered_event(
    previous: Seq<TraeTask>,
    reordered: Seq<TraeTask>,
    perm: Seq<int>,
    task: TraeTask,
)
    requires
        task_ids_distinct(previous),
        reorders_by_id(previous, reordered, perm),
    ensures
        status_change_event(reordered, task) == status_change_event(previous, task),
{
    let id = task.task_id;
    assert(task_ids_distinct(reordered)) by {
        assert forall|i: int, j: int|
            0 <= i < reordered.len() && 0 <= j < reordered.len() && i != j implies #[trigger] reordered[i].task_id
                != #[trigger] reordered[j].task_id by {
            assert(perm[i] != perm[j]);
        }
    }
    if exists|k: int| 0 <= k < previous.len() && #[trigger] previous[k].task_id == id {
        let k = choose|k: int| 0 <= k < previous.len() && #[trigger] previous[k].task_id == id;
        let i = choose|i: int| 0 <= i < perm.len() && #[trigger] perm[i] == k;
        lemma_last_with_distinct_id(previous, k);
        lemma_last_with_distinct_id(reordered, i);
    } else {
        lemma_no_task_with_id(previous, id);
        assert forall|i: int| 0 <= i < reordered.len() implies #[trigger] reordered[i].task_id != id by {
            assert(previous[perm[i]].task_id != id);
        }
        lemma_no_task_with_id(reordered, id);
    }
}

/// Identity comes from the task id, not from the title or the position: when
/// the previous list (with distinct ids) is put in another order, keeping each
/// task's id and status but perhaps changing its title, index or selection,
/// the latest list raises the same events against it.
pub proof fn lemma_diff_ignores_order_and_titles(
    previous: Seq<TraeTask>,
    reordered: Seq<TraeTask>,
    perm: Seq<int>,
    latest: Seq<TraeTask>,
)
    requires
        task_ids_distinct(previous),
        reorders_by_id(previous, reordered, perm),
    ensures
        status_change_events(reordered, latest) == status_change_events(previous, latest),
    decreases latest.len(),
{
    if latest.len() > 0 {
        lemma_diff_ignores_order_and_titles(previous, reordered, perm, latest.drop_last());
        lemma_reordered_event(previous, reordered, perm, latest.last());
    }
}

proof fn lemma_row_event_is_raised(previous: Seq<TraeTask>, latest: Seq<TraeTask>, j: int)
    requires
        0 <= j < latest.len(),
        status_change_event(previous, latest[j]) is Some,
    ensures
        status_change_events(previous, latest).contains(
            status_change_event(previous, latest[j])->0,
        ),
    decreases latest.len(),
{
    let d = latest.drop_last();
    let before = status_change_events(previous, d);
    if j == latest.len() - 1 {
        let e = status_change_event(previous, latest.last())->0;
        assert(before.push(e)[before.len() as int] == e);
    } else {
        assert(d[j] == latest[j]);
        lemma_row_event_is_raised(previous, d, j);
        let e = status_change_event(previous, latest[j])->0;
        let k = choose|k: int| 0 <= k < before.len() && before[k] == e;
        match status_change_event(previous, latest.last()) {
            Some(x) => {
                assert(before.push(x)[k] == e);
            },
            None => {},
        }
    }
}

proof fn lemma_last_task_found(tasks: Seq<TraeTask>, id: u64)
    ensures
        match last_task_with_id(tasks, id) {
            Some(p) => exists|k: int| 0 <= k < tasks.len() && tasks[k] == p && p.task_id == id,
            None => forall|k: int| 0 <= k < tasks.len() ==> tasks[k].task_id != id,
        },
    decreases tasks.len(),
{
    if tasks.len() > 0 {
        let d = tasks.drop_last();
        lemma_last_task_found(d, id);
        if tasks.last().task_id == id {
            assert(tasks[tasks.len() - 1] == tasks.last());
        } else {
            match last_task_with_id(d, id) {
                Some(p) => {
                    let k = choose|k: int| 0 <= k < d.len() && d[k] == p && p.task_id == id;
                    assert(tasks[k] == d[k]);
                },
                None => {
                    assert forall|k: int| 0 <= k < tasks.len() implies tasks[k].task_id != id by {
                        if k < d.len() {
                            assert(tasks[k] == d[k]);
                        }
                    }
                },
            }
        }
    }
}

/// The diff reports every change and nothing else. Each task of the latest
/// list whose id a previous task has with another status raises an event with
/// that task and the previous status; each task whose id is new and that is
/// interrupted, finished or waiting for a human raises an event with no
/// previous status. Conversely every event is about a task of the latest list
/// and is one of these.
pub proof fn lemma_diff_reports_every_change(previous: Seq<TraeTask>, latest: Seq<TraeTask>)
    requires
        task_ids_distinct(previous),
    ensures
        forall|j: int, k: int|
            0 <= j < latest.len() && 0 <= k < previous.len() && #[trigger] latest[j].task_id
                == #[trigger] previous[k].task_id && previous[k].status != latest[j].status
                ==> status_change_events(previous, latest).contains(
                TaskStatusChangeEvent { task: latest[j], previous_status: Some(previous[k].status) },
            ),
        forall|j: int|
            0 <= j < latest.len() && (forall|k: int|
                0 <= k < previous.len() ==> previous[k].task_id != #[trigger] latest[j].task_id)
                && (latest[j].status == TraeTaskStatus::Interrupted || latest[j].status
                == TraeTaskStatus::Finished || latest[j].status == TraeTaskStatus::WaitingForHITL)
                ==> status_change_events(previous, latest).contains(
                TaskStatusChangeEvent { task: latest[j], previous_status: None },
            ),
        forall|e: TaskStatusChangeEvent|
            #[trigger] status_change_events(previous, latest).contains(e) ==> {
                &&& latest.contains(e.task)
                &&& match e.previous_status {
                    Some(s) => exists|k: int|
                        0 <= k < previous.len() && previous[k].task_id == e.task.task_id
                            && previous[k].status == s && s != e.task.status,
                    None => forall|k: int|
                        0 <= k < previous.len() ==> previous[k].task_id != e.task.task_id,
                }
            },
{
    assert forall|j: int, k: int|
        0 <= j < latest.len() && 0 <= k < previous.len() && #[trigger] latest[j].task_id
            == #[trigger] previous[k].task_id && previous[k].status != latest[j].status
            implies status_change_events(previous, latest).contains(
        TaskStatusChangeEvent { task: latest[j], previous_status: Some(previous[k].status) },
    ) by {
        lemma_last_with_distinct_id(previous, k);
        lemma_row_event_is_raised(previous, latest, j);
    }
    assert forall|j: int|
        0 <= j < latest.len() && (forall|k: int|
            0 <= k < previous.len() ==> previous[k].task_id != #[trigger] latest[j].task_id)
            && (latest[j].status == TraeTaskStatus::Interrupted || latest[j].status
            == TraeTaskStatus::Finished || latest[j].status == TraeTaskStatus::WaitingForHITL)
            implies status_change_events(previous, latest).contains(
        TaskStatusChangeEvent { task: latest[j], previous_status: None },
    ) by {
        lemma_no_task_with_id(previous, latest[j].task_id);
        lemma_row_event_is_raised(previous, latest, j);
    }
    lemma_events_describe_changes(previous, latest);
    assert forall|e: TaskStatusChangeEvent|
        #[trigger] status_change_events(previous, latest).contains(e) implies {
            &&& latest.contains(e.task)
            &&& match e.previous_status {
                Some(s) => exists|k: int|
                    0 <= k < previous.len() && previous[k].task_id == e.task.task_id
                        && previous[k].status == s && s != e.task.status,
                None => forall|k: int|
                    0 <= k < previous.len() ==> previous[k].task_id != e.task.task_id,
            }
        } by {
        let events = status_change_events(previous, latest);
        let i = choose|i: int| 0 <= i < events.len() && events[i] == e;
        assert(events[i] == e);
        lemma_last_task_found(previous, e.task.task_id);
    }
}

/// An example of a custom action: it focuses the task and types
/// `Hello, world` into its cleared chat input.
#[derive(Debug, Clone, Copy)]
pub struct CustomActionExample;

impl CustomActionExample {
    /// The text that the example types.
    pub fn greeting(&self) -> (r: &'static str)
        ensures
            r@ == "Hello, world"@,
    {
        "Hello, world"
    }

    pub fn name(&self) -> (r: &'static str)
        ensures
            r@ == "custom_action_example"@,
    {
        "custom_action_example"
    }
}


/// The editor call that runs one step of an action chain. Task-scoped calls
/// carry the task's stable id, and the editor resolves its current position in
/// the sidebar just before it touches the page; no step keeps a position.
#[derive(Debug, Clone, PartialEq, Eq)]
pub enum StepCall {
    CreateTask,
    FocusTask { task_id: u64 },
    FocusChatInput,
    ClearChatInput,
    TypeText { text: String },
    SendById { task_id: u64 },
    ClickSelector { selector: String },
    ClickButtonByText { text: String },
    WaitForSelector { selector: String, timeout_ms: u64 },
    Sleep { ms: u64 },
    AllowCommand { task_id: u64 },
    RejectCommand { task_id: u64 },
    HandleHumanInLoop { task_id: u64 },
    /// The step's own custom action, run with the task and its event.
    Custom,
}

/// The call that runs `step` for the task `task_id`.
pub open spec fn spec_step_call<C>(step: ActionOp<C>, task_id: u64) -> StepCall {
    match step {
        ActionOp::NewTask => StepCall::CreateTask,
        ActionOp::FocusTask => StepCall::FocusTask { task_id },
        ActionOp::FocusChatInput => StepCall::FocusChatInput,
        ActionOp::ClearChatInput => StepCall::ClearChatInput,
        ActionOp::TypeText(text) => StepCall::TypeText { text },
        ActionOp::PressEnter => StepCall::SendById { task_id },
        ActionOp::ClickSelector(selector) => StepCall::ClickSelector { selector },
        ActionOp::ClickButtonByText(text) => StepCall::ClickButtonByText { text },
        ActionOp::WaitForSelector { selector, timeout_ms } => StepCall::WaitForSelector {
            selector,
            timeout_ms,
        },
        ActionOp::AllowCommand => StepCall::AllowCommand { task_id },
        ActionOp::RejectCommand => StepCall::RejectCommand { task_id },
        ActionOp::HandleHumanInLoop => StepCall::HandleHumanInLoop { task_id },
        ActionOp::SleepMs(ms) => StepCall::Sleep { ms },
        ActionOp::Custom(_) => StepCall::Custom,
    }
}

/// The call that runs `step` for the task `task_id`.
pub fn step_call<C>(step: &ActionOp<C>, task_id: u64) -> (r: StepCall)
    ensures
        r == spec_step_call(*step, task_id),
{
    match step {
        ActionOp::NewTask => StepCall::CreateTask,
        ActionOp::FocusTask => StepCall::FocusTask { task_id },
        ActionOp::FocusChatInput => StepCall::FocusChatInput,
        ActionOp::ClearChatInput => StepCall::ClearChatInput,
        ActionOp::TypeText(text) => StepCall::TypeText { text: text.clone() },
        ActionOp::PressEnter => StepCall::SendById { task_id },
        ActionOp::ClickSelector(selector) => StepCall::ClickSelector { selector: selector.clone() },
        ActionOp::ClickButtonByText(text) => StepCall::ClickButtonByText { text: text.clone() },
        ActionOp::WaitForSelector { selector, timeout_ms } => StepCall::WaitForSelector {
            selector: selector.clone(),
            timeout_ms: *timeout_ms,
        },
        ActionOp::AllowCommand => StepCall::AllowCommand { task_id },
        ActionOp::RejectCommand => StepCall::RejectCommand { task_id },
        ActionOp::HandleHumanInLoop => StepCall::HandleHumanInLoop { task_id },
        ActionOp::SleepMs(ms) => StepCall::Sleep { ms: *ms },
        ActionOp::Custom(_) => StepCall::Custom,
    }
}

/// The calls that run the steps of `chain` for the task `task_id`, in order.
pub fn chain_calls<C>(chain: &ActionChain<C>, task_id: u64) -> (r: Vec<StepCall>)
    ensures
        r@ == chain.steps@.map_values(|step: ActionOp<C>| spec_step_call(step, task_id)),
{
    let n = chain.steps.len();
    let mut calls: Vec<StepCall> = Vec::new();
    let mut k: usize = 0;
    while k < n
        invariant
            n == chain.steps@.len(),
            k <= n,
            calls@ == chain.steps@.take(k as int).map_values(
                |step: ActionOp<C>| spec_step_call(step, task_id),
            ),
        decreases n - k,
    {
        let call = step_call(&chain.steps[k], task_id);
        calls.push(call);
        proof {
            assert(chain.steps@.take(k + 1).drop_last() =~= chain.steps@.take(k as int));
            assert(calls@ =~= chain.steps@.take(k + 1).map_values(
                |step: ActionOp<C>| spec_step_call(step, task_id),
            ));
        }
        k = k + 1;
    }
    assert(chain.steps@.take(n as int) =~= chain.steps@);
    calls
}

/// Every task-scoped call of a chain names the task by its id: whatever the
/// chain, no call of `chain_calls` carries another task id, and none carries a
/// sidebar position.
pub proof fn lemma_chain_calls_use_the_task_id<C>(steps: Seq<ActionOp<C>>, task_id: u64, k: int)
    requires
        0 <= k < steps.len(),
    ensures
        ({
            let call = steps.map_values(|step: ActionOp<C>| spec_step_call(step, task_id))[k];
            &&& call matches StepCall::FocusTask { task_id: id } ==> id == task_id
            &&& call matches StepCall::SendById { task_id: id } ==> id == task_id
            &&& call matches StepCall::AllowCommand { task_id: id } ==> id == task_id
            &&& call matches StepCall::RejectCommand { task_id: id } ==> id == task_id
            &&& call matches StepCall::HandleHumanInLoop { task_id: id } ==> id == task_id
        }),
{
}

} // verus!
