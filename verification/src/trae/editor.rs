//! The decisions behind the editor: reading sidebar rows, reconciling task
//! identity across snapshots, the status guards of task actions, and the
//! retry bookkeeping of actions on tasks that stay stuck.

use vstd::prelude::*;
use std::collections::HashMap;
use crate::config::{CommandStrategy, QuestionStrategy};
use crate::text::{contains_seq, contains_str, str_equal, trim, trimmed};
use crate::trae::consts::{
    DELETE_COMMAND_ALLOW_SELECTOR, DELETE_COMMAND_CARD_CLASS, DELETE_COMMAND_REJECT_SELECTOR,
    DELETE_COMMAND_TEXT_SELECTOR, FEEDBACK_BAD_BUTTON_SELECTOR, FEEDBACK_GOOD_BUTTON_SELECTOR,
    RUN_COMMAND_ALLOW_SELECTOR, RUN_COMMAND_REJECT_SELECTOR, RUN_COMMAND_TEXT_SELECTOR,
    TRAE_IDE_MODE_TEXT_LABEL, TRAE_SOLO_MODE_TEXT_LABEL, TRAE_SOLO_TASK_FINISHED_LABEL,
    TRAE_SOLO_TASK_INTERRUPTED_LABEL, TRAE_SOLO_TASK_RUNNING_LABEL,
    TRAE_SOLO_TASK_WAITING_FOR_HITL_LABEL,
};
use crate::trae::types::{
    TaskStatusChangeEvent, TraeEditorMode, TraeSoloTaskFeedback, TraeTask, TraeTaskStatus,
};

verus! {

/// Builds the editor handle once a browser is connected.
#[derive(Debug, Clone, Copy)]
pub struct TraeEditorBuilder;

// ---------------------------------------------------------------------------
// Reading the sidebar
// ---------------------------------------------------------------------------

/// The status that a sidebar status label stands for; an unknown label means
/// the task is idle.
pub open spec fn spec_parse_task_status(raw: Seq<char>) -> TraeTaskStatus {
    if raw == TRAE_SOLO_TASK_RUNNING_LABEL@ {
        TraeTaskStatus::Running
    } else if raw == TRAE_SOLO_TASK_INTERRUPTED_LABEL@ {
        TraeTaskStatus::Interrupted
    } else if raw == TRAE_SOLO_TASK_FINISHED_LABEL@ {
        TraeTaskStatus::Finished
    } else if raw == TRAE_SOLO_TASK_WAITING_FOR_HITL_LABEL@ {
        TraeTaskStatus::WaitingForHITL
    } else {
        TraeTaskStatus::Idle
    }
}

pub fn parse_task_status(raw_status: &str) -> (r: TraeTaskStatus)
    ensures
        r == spec_parse_task_status(raw_status@),
{
    if str_equal(raw_status, TRAE_SOLO_TASK_RUNNING_LABEL) {
        TraeTaskStatus::Running
    } else if str_equal(raw_status, TRAE_SOLO_TASK_INTERRUPTED_LABEL) {
        TraeTaskStatus::Interrupted
    } else if str_equal(raw_status, TRAE_SOLO_TASK_FINISHED_LABEL) {
        TraeTaskStatus::Finished
    } else if str_equal(raw_status, TRAE_SOLO_TASK_WAITING_FOR_HITL_LABEL) {
        TraeTaskStatus::WaitingForHITL
    } else {
        TraeTaskStatus::Idle
    }
}

/// The mode that the title bar badge reveals. The badge names the mode one can
/// switch to, so a badge that offers SOLO means the editor is in IDE mode.
pub open spec fn spec_mode_from_badge(description: Seq<char>) -> Option<TraeEditorMode> {
    if description == TRAE_SOLO_MODE_TEXT_LABEL@ {
        Some(TraeEditorMode::IDE)
    } else if description == TRAE_IDE_MODE_TEXT_LABEL@ {
        Some(TraeEditorMode::SOLO)
    } else {
        None
    }
}

/// The current editor mode read from the text of the mode badge; `None` when
/// the text is neither of the two known labels.
pub fn mode_from_badge_text(description: &str) -> (r: Option<TraeEditorMode>)
    ensures
        r == spec_mode_from_badge(description@),
{
    if str_equal(description, TRAE_SOLO_MODE_TEXT_LABEL) {
        Some(TraeEditorMode::IDE)
    } else if str_equal(description, TRAE_IDE_MODE_TEXT_LABEL) {
        Some(TraeEditorMode::SOLO)
    } else {
        None
    }
}

/// One row of the sidebar, read before identity is assigned.
#[derive(Debug)]
pub struct TaskRow {
    pub title: String,
    pub status: TraeTaskStatus,
    pub selected: bool,
}

impl TaskRow {
    /// The row for the raw texts of a sidebar item: the title is trimmed and
    /// the status label parsed.
    pub fn from_ui(title: &str, raw_status: &str, selected: bool) -> (r: TaskRow)
        ensures
            r.title@ == trim(title@),
            r.status == spec_parse_task_status(raw_status@),
            r.selected == selected,
    {
        TaskRow { title: trimmed(title), status: parse_task_status(raw_status), selected }
    }
}

// ---------------------------------------------------------------------------
// Task identity across snapshots
// ---------------------------------------------------------------------------

/// A fact about the next snapshot that this process knows because it caused
/// the reorder itself.
#[derive(PartialEq, Eq, Structural, Debug, Clone, Copy)]
pub enum TaskListHint {
    /// A task was just created: it stands at the front.
    NewTaskAtFront,
    /// Input was sent to a finished or interrupted task: it jumped to the front.
    MoveTaskToFront { task_id: u64 },
}

impl TaskListHint {
    /// The hint to record after follow-up input was sent to `task`: a finished
    /// or interrupted task jumps to the front, a task waiting for a human stays.
    pub fn after_follow_up(task: &TraeTask) -> (r: Option<TaskListHint>)
        ensures
            r == (if task.status == TraeTaskStatus::Finished || task.status
                == TraeTaskStatus::Interrupted {
                Some(TaskListHint::MoveTaskToFront { task_id: task.task_id })
            } else {
                None
            }),
    {
        if task.is_terminal() {
            Some(TaskListHint::MoveTaskToFront { task_id: task.task_id })
        } else {
            None
        }
    }
}

/// Position of the first task of `tasks` with id `id`.
pub open spec fn first_position_of_id(tasks: Seq<TraeTask>, id: u64) -> Option<int>
    decreases tasks.len(),
{
    if tasks.len() == 0 {
        None
    } else {
        match first_position_of_id(tasks.drop_last(), id) {
            Some(i) => Some(i),
            None => if tasks.last().task_id == id {
                Some(tasks.len() - 1)
            } else {
                None
            },
        }
    }
}

proof fn lemma_first_position_absent(tasks: Seq<TraeTask>, id: u64)
    requires
        forall|k: int| 0 <= k < tasks.len() ==> tasks[k].task_id != id,
    ensures
        first_position_of_id(tasks, id) is None,
    decreases tasks.len(),
{
    if tasks.len() > 0 {
        lemma_first_position_absent(tasks.drop_last(), id);
    }
}

proof fn lemma_first_position_found(tasks: Seq<TraeTask>, id: u64, i: int)
    requires
        0 <= i < tasks.len(),
        tasks[i].task_id == id,
        forall|k: int| 0 <= k < i ==> tasks[k].task_id != id,
    ensures
        first_position_of_id(tasks, id) == Some(i),
    decreases tasks.len(),
{
    if i < tasks.len() - 1 {
        lemma_first_position_found(tasks.drop_last(), id, i);
    } else {
        lemma_first_position_absent(tasks.drop_last(), id);
    }
}

/// What `first_position_of_id` gives is a position holding that id, before
/// which no task has it.
pub proof fn lemma_first_position_spec(tasks: Seq<TraeTask>, id: u64)
    ensures
        match first_position_of_id(tasks, id) {
            Some(i) => 0 <= i < tasks.len() && tasks[i].task_id == id && forall|k: int|
                0 <= k < i ==> tasks[k].task_id != id,
            None => forall|k: int| 0 <= k < tasks.len() ==> tasks[k].task_id != id,
        },
    decreases tasks.len(),
{
    if tasks.len() > 0 {
        let d = tasks.drop_last();
        lemma_first_position_spec(d, id);
        assert forall|k: int| 0 <= k < d.len() implies d[k] == tasks[k] by {}
    }
}

/// The current sidebar position of the task with id `task_id`, resolved just
/// before an action touches the page.
pub fn index_of_task_id(tasks: &[TraeTask], task_id: u64) -> (r: Option<usize>)
    ensures
        match r {
            Some(i) => i < tasks@.len() && tasks@[i as int].task_id == task_id
                && first_position_of_id(tasks@, task_id) == Some(i as int),
            None => first_position_of_id(tasks@, task_id) is None,
        },
{
    let n = tasks.len();
    let mut i: usize = 0;
    while i < n
        invariant
            n == tasks@.len(),
            i <= n,
            forall|k: int| 0 <= k < i ==> tasks@[k].task_id != task_id,
        decreases n - i,
    {
        if tasks[i].task_id == task_id {
            proof {
                lemma_first_position_found(tasks@, task_id, i as int);
            }
            return Some(i);
        }
        i = i + 1;
    }
    proof {
        lemma_first_position_absent(tasks@, task_id);
    }
    None
}

/// The task at sidebar position `index` of `tasks`, if there is one.
pub fn task_by_index(tasks: &[TraeTask], index: usize) -> (r: Option<TraeTask>)
    ensures
        r == (if index < tasks@.len() {
            Some(tasks@[index as int])
        } else {
            None
        }),
{
    if index < tasks.len() {
        Some(tasks[index].clone())
    } else {
        None
    }
}

/// Without a usable hint the list is taken as stable, except that growth means
/// new tasks inserted at the front.
pub open spec fn stable_origin(previous_len: nat, latest_len: nat, row: int) -> Option<usize> {
    if latest_len > previous_len {
        let grown = latest_len - previous_len;
        if row < grown {
            None
        } else {
            Some((row - grown) as usize)
        }
    } else {
        Some(row as usize)
    }
}

/// The previous position that latest row `row` continues, or `None` for a new
/// task.
pub open spec fn reconciled_origin(
    previous: Seq<TraeTask>,
    latest_len: nat,
    hint: Option<TaskListHint>,
    row: int,
) -> Option<usize> {
    match hint {
        Some(TaskListHint::NewTaskAtFront) => {
            if row == 0 {
                None
            } else if row - 1 < previous.len() {
                Some((row - 1) as usize)
            } else {
                None
            }
        },
        Some(TaskListHint::MoveTaskToFront { task_id }) => {
            match first_position_of_id(previous, task_id) {
                Some(p) => {
                    if row == 0 {
                        Some(p as usize)
                    } else {
                        let k = if row - 1 < p {
                            row - 1
                        } else {
                            row
                        };
                        if k < previous.len() {
                            Some(k as usize)
                        } else {
                            None
                        }
                    }
                },
                None => stable_origin(previous.len(), latest_len, row),
            }
        },
        None => stable_origin(previous.len(), latest_len, row),
    }
}

/// Every origin is a previous position, and no two rows continue the same one.
pub open spec fn origins_valid(origins: Seq<Option<usize>>, previous_len: nat) -> bool {
    &&& forall|i: int|
        0 <= i < origins.len() && #[trigger] origins[i] is Some ==> origins[i]->0 < previous_len
    &&& forall|i: int, j: int|
        0 <= i < origins.len() && 0 <= j < origins.len() && i != j && #[trigger] origins[i]
            is Some && #[trigger] origins[j] is Some ==> origins[i]->0 != origins[j]->0
}

/// After follow-up input moved a task to the front, row 0 continues it, and
/// the other rows continue the remaining previous tasks in their old order:
/// every row within the previous length continues a task other than the moved
/// one, and the continued positions increase from row to row. `p` is the first
/// previous position holding the moved task's id.
pub proof fn lemma_move_to_front_keeps_relative_order(
    previous: Seq<TraeTask>,
    latest_len: nat,
    task_id: u64,
    p: int,
)
    requires
        previous.len() <= usize::MAX,
        0 <= p < previous.len(),
        previous[p].task_id == task_id,
        forall|k: int| 0 <= k < p ==> previous[k].task_id != task_id,
    ensures
        ({
            let hint = Some(TaskListHint::MoveTaskToFront { task_id });
            &&& latest_len > 0 ==> reconciled_origin(previous, latest_len, hint, 0) == Some(
                p as usize,
            )
            &&& forall|r: int|
                1 <= r < latest_len && r < previous.len() ==> (#[trigger] reconciled_origin(
                    previous,
                    latest_len,
                    hint,
                    r,
                ) matches Some(k) && k != p)
            &&& forall|r1: int, r2: int|
                1 <= r1 < r2 < latest_len && #[trigger] reconciled_origin(
                    previous,
                    latest_len,
                    hint,
                    r1,
                ) is Some && #[trigger] reconciled_origin(previous, latest_len, hint, r2) is Some
                    ==> reconciled_origin(previous, latest_len, hint, r1)->0 < reconciled_origin(
                    previous,
                    latest_len,
                    hint,
                    r2,
                )->0
        }),
{
    lemma_first_position_spec(previous, task_id);
    match first_position_of_id(previous, task_id) {
        Some(i) => {
            if i < p {
                assert(previous[i].task_id != task_id);
            } else if i > p {
                assert(previous[p].task_id != task_id);
            }
        },
        None => {
            assert(previous[p].task_id != task_id);
        },
    }
}

/// A task created at the front is new, and every other row within reach of the
/// previous list continues a previous task (in the old order, by
/// `lemma_reconciled_rows_keep_order`): no previous task loses its identity.
pub proof fn lemma_new_task_at_front_keeps_the_others(previous: Seq<TraeTask>, latest_len: nat)
    requires
        previous.len() <= usize::MAX,
    ensures
        ({
            let hint = Some(TaskListHint::NewTaskAtFront);
            &&& latest_len > 0 ==> reconciled_origin(previous, latest_len, hint, 0) is None
            &&& forall|r: int|
                1 <= r < latest_len && r <= previous.len() ==> #[trigger] reconciled_origin(
                    previous,
                    latest_len,
                    hint,
                    r,
                ) is Some
        }),
{
}

/// Whatever the hint, the rows that continue previous tasks do so in the old
/// order (apart from row 0 of a moved task): a later row never continues an
/// earlier previous position than a row above it.
pub proof fn lemma_reconciled_rows_keep_order(
    previous: Seq<TraeTask>,
    latest_len: nat,
    hint: Option<TaskListHint>,
)
    requires
        previous.len() <= usize::MAX,
        latest_len <= usize::MAX,
    ensures
        forall|r1: int, r2: int|
            0 <= r1 < r2 < latest_len && !(r1 == 0 && hint matches Some(
                TaskListHint::MoveTaskToFront { .. },
            )) && #[trigger] reconciled_origin(previous, latest_len, hint, r1) is Some
                && #[trigger] reconciled_origin(previous, latest_len, hint, r2) is Some
                ==> reconciled_origin(previous, latest_len, hint, r1)->0 < reconciled_origin(
                previous,
                latest_len,
                hint,
                r2,
            )->0,
{
    lemma_first_position_spec(previous, match hint {
        Some(TaskListHint::MoveTaskToFront { task_id }) => task_id,
        _ => 0,
    });
}

/// Reconciliation never gives one previous task to two latest rows, and only
/// refers to positions that the previous list has.
pub proof fn lemma_reconciled_origins_valid(
    previous: Seq<TraeTask>,
    latest_len: nat,
    hint: Option<TaskListHint>,
)
    requires
        previous.len() <= usize::MAX,
        latest_len <= usize::MAX,
    ensures
        origins_valid(
            Seq::new(latest_len, |row: int| reconciled_origin(previous, latest_len, hint, row)),
            previous.len(),
        ),
{
    let origins = Seq::new(
        latest_len,
        |row: int| reconciled_origin(previous, latest_len, hint, row),
    );
    lemma_first_position_spec(previous, match hint {
        Some(TaskListHint::MoveTaskToFront { task_id }) => task_id,
        _ => 0,
    });
    assert forall|i: int|
        0 <= i < origins.len() && #[trigger] origins[i] is Some implies origins[i]->0
        < previous.len() by {}
    assert forall|i: int, j: int|
        0 <= i < origins.len() && 0 <= j < origins.len() && i != j && #[trigger] origins[i]
            is Some && #[trigger] origins[j] is Some implies origins[i]->0 != origins[j]->0 by {
        match hint {
            Some(TaskListHint::MoveTaskToFront { task_id }) => {
                match first_position_of_id(previous, task_id) {
                    Some(p) => {
                        if i != 0 && j != 0 {
                            let ki = if i - 1 < p {
                                i - 1
                            } else {
                                i
                            };
                            let kj = if j - 1 < p {
                                j - 1
                            } else {
                                j
                            };
                            assert(origins[i]->0 == ki);
                            assert(origins[j]->0 == kj);
                            assert(ki != kj);
                        }
                    },
                    None => {},
                }
            },
            _ => {},
        }
    }
}

/// Maps each row of the latest snapshot to the row of the previous snapshot
/// that holds the same logical task, or to `None` for a new task.
///
/// With `NewTaskAtFront`, row 0 is new and the others follow in order. With
/// `MoveTaskToFront`, row 0 is the hinted task and the others keep their
/// relative order. Otherwise the order is stable, and growth of the list means
/// new tasks at the front.
pub fn reconcile_task_snapshots(
    previous: &[TraeTask],
    latest_len: usize,
    hint: Option<TaskListHint>,
) -> (r: Vec<Option<usize>>)
    ensures
        r@.len() == latest_len,
        forall|row: int|
            0 <= row < latest_len ==> #[trigger] r@[row] == reconciled_origin(
                previous@,
                latest_len as nat,
                hint,
                row,
            ),
        origins_valid(r@, previous@.len()),
{
    let prev_len = previous.len();
    let moved: Option<usize> = match hint {
        Some(TaskListHint::MoveTaskToFront { task_id }) => index_of_task_id(previous, task_id),
        _ => None,
    };
    let mut origins: Vec<Option<usize>> = Vec::new();
    let mut row: usize = 0;
    while row < latest_len
        invariant
            prev_len == previous@.len(),
            row <= latest_len,
            origins@.len() == row,
            match hint {
                Some(TaskListHint::MoveTaskToFront { task_id }) => match moved {
                    Some(p) => first_position_of_id(previous@, task_id) == Some(p as int),
                    None => first_position_of_id(previous@, task_id) is None,
                },
                _ => moved is None,
            },
            forall|k: int|
                0 <= k < row ==> #[trigger] origins@[k] == reconciled_origin(
                    previous@,
                    latest_len as nat,
                    hint,
                    k,
                ),
        decreases latest_len - row,
    {
        let origin: Option<usize> = match (hint, moved) {
            (Some(TaskListHint::NewTaskAtFront), _) => {
                if row == 0 {
                    None
                } else if row - 1 < prev_len {
                    Some(row - 1)
                } else {
                    None
                }
            },
            (Some(TaskListHint::MoveTaskToFront { .. }), Some(p)) => {
                if row == 0 {
                    Some(p)
                } else {
                    let k = if row - 1 < p {
                        row - 1
                    } else {
                        row
                    };
                    if k < prev_len {
                        Some(k)
                    } else {
                        None
                    }
                }
            },
            _ => {
                if latest_len > prev_len {
                    let grown = latest_len - prev_len;
                    if row < grown {
                        None
                    } else {
                        Some(row - grown)
                    }
                } else {
                    Some(row)
                }
            },
        };
        origins.push(origin);
        row = row + 1;
    }
    proof {
        lemma_reconciled_origins_valid(previous@, latest_len as nat, hint);
        let expected = Seq::new(
            latest_len as nat,
            |row: int| reconciled_origin(previous@, latest_len as nat, hint, row),
        );
        assert(origins@ =~= expected);
    }
    origins
}

/// Number of new tasks among `origins`.
pub open spec fn fresh_count(origins: Seq<Option<usize>>) -> nat
    decreases origins.len(),
{
    if origins.len() == 0 {
        0
    } else {
        fresh_count(origins.drop_last()) + if origins.last() is None {
            1nat
        } else {
            0nat
        }
    }
}

/// The id that row `row` gets: the id of the previous task it continues, or
/// the next unused id, taken in row order.
pub open spec fn assigned_task_id(
    previous: Seq<TraeTask>,
    origins: Seq<Option<usize>>,
    next_task_id: u64,
    row: int,
) -> int {
    match origins[row] {
        Some(k) => previous[k as int].task_id as int,
        None => next_task_id + fresh_count(origins.take(row)),
    }
}

/// The task for row `row`: its assigned id, the row's contents, and `row` as
/// its position.
pub open spec fn reconciled_task(
    previous: Seq<TraeTask>,
    origins: Seq<Option<usize>>,
    rows: Seq<TaskRow>,
    next_task_id: u64,
    row: int,
) -> TraeTask {
    TraeTask {
        task_id: assigned_task_id(previous, origins, next_task_id, row) as u64,
        title: rows[row].title,
        status: rows[row].status,
        selected: rows[row].selected,
        index: row as usize,
    }
}

proof fn lemma_fresh_count_bounds(origins: Seq<Option<usize>>, i: int, j: int)
    requires
        0 <= i <= j <= origins.len(),
    ensures
        fresh_count(origins.take(i)) <= fresh_count(origins.take(j)),
        i < j && origins[i] is None ==> fresh_count(origins.take(i)) < fresh_count(
            origins.take(j),
        ),
        fresh_count(origins.take(j)) <= j,
    decreases j,
{
    if j > 0 {
        assert(origins.take(j).drop_last() =~= origins.take(j - 1));
        if i < j {
            lemma_fresh_count_bounds(origins, i, j - 1);
            if i == j - 1 {
                assert(origins.take(j).last() == origins[i]);
            }
        }
        lemma_fresh_count_bounds(origins, j - 1, j - 1);
    } else {
        assert(origins.take(0) =~= Seq::<Option<usize>>::empty());
    }
}

/// The tasks of the latest snapshot, each with the id that reconciliation
/// gives it, and the next unused id.
pub fn tasks_from_rows(
    previous: &[TraeTask],
    origins: &[Option<usize>],
    rows: &[TaskRow],
    next_task_id: u64,
) -> (r: (Vec<TraeTask>, u64))
    requires
        origins@.len() == rows@.len(),
        origins_valid(origins@, previous@.len()),
        next_task_id + rows@.len() <= u64::MAX,
    ensures
        r.0@.len() == rows@.len(),
        forall|row: int|
            0 <= row < rows@.len() ==> #[trigger] r.0@[row] == reconciled_task(
                previous@,
                origins@,
                rows@,
                next_task_id,
                row,
            ),
        r.1 == next_task_id + fresh_count(origins@),
{
    let n = rows.len();
    let mut tasks: Vec<TraeTask> = Vec::new();
    let mut next: u64 = next_task_id;
    let mut row: usize = 0;
    while row < n
        invariant
            n == rows@.len(),
            n == origins@.len(),
            origins_valid(origins@, previous@.len()),
            next_task_id + n <= u64::MAX,
            row <= n,
            tasks@.len() == row,
            next == next_task_id + fresh_count(origins@.take(row as int)),
            forall|k: int|
                0 <= k < row ==> #[trigger] tasks@[k] == reconciled_task(
                    previous@,
                    origins@,
                    rows@,
                    next_task_id,
                    k,
                ),
        decreases n - row,
    {
        proof {
            lemma_fresh_count_bounds(origins@, row as int, row as int);
            assert(origins@.take(row + 1).drop_last() =~= origins@.take(row as int));
        }
        let task_id: u64 = match origins[row] {
            Some(k) => {
                assert(origins@[row as int] is Some);
                previous[k].task_id
            },
            None => {
                let id = next;
                next = next + 1;
                id
            },
        };
        let r = &rows[row];
        tasks.push(
            TraeTask {
                task_id,
                title: r.title.clone(),
                status: r.status,
                selected: r.selected,
                index: row,
            },
        );
        row = row + 1;
    }
    assert(origins@.take(n as int) =~= origins@);
    (tasks, next)
}

/// No two tasks share an id.
pub open spec fn task_ids_distinct(tasks: Seq<TraeTask>) -> bool {
    forall|i: int, j: int|
        0 <= i < tasks.len() && 0 <= j < tasks.len() && i != j ==> #[trigger] tasks[i].task_id
            != #[trigger] tasks[j].task_id
}

/// Every id is below `bound`, the next id to hand out.
pub open spec fn task_ids_below(tasks: Seq<TraeTask>, bound: u64) -> bool {
    forall|i: int| 0 <= i < tasks.len() ==> #[trigger] tasks[i].task_id < bound
}

/// Identity is kept: when the previous tasks have distinct ids below
/// `next_task_id`, the reconciled tasks have distinct ids below the returned
/// next id, and each kept task has the id it had before.
pub proof fn lemma_reconciled_ids_distinct(
    previous: Seq<TraeTask>,
    origins: Seq<Option<usize>>,
    rows: Seq<TaskRow>,
    next_task_id: u64,
)
    requires
        origins.len() == rows.len(),
        origins_valid(origins, previous.len()),
        task_ids_distinct(previous),
        task_ids_below(previous, next_task_id),
        next_task_id + rows.len() <= u64::MAX,
    ensures
        ({
            let latest = Seq::new(
                rows.len(),
                |row: int| reconciled_task(previous, origins, rows, next_task_id, row),
            );
            &&& task_ids_distinct(latest)
            &&& task_ids_below(latest, (next_task_id + fresh_count(origins)) as u64)
        }),
{
    let n = rows.len() as int;
    let latest = Seq::new(
        rows.len(),
        |row: int| reconciled_task(previous, origins, rows, next_task_id, row),
    );
    assert(origins.take(n) =~= origins);
    assert forall|i: int| 0 <= i < latest.len() implies #[trigger] latest[i].task_id < (
    next_task_id + fresh_count(origins)) as u64 by {
        lemma_fresh_count_bounds(origins, i, n);
        lemma_fresh_count_bounds(origins, i, i);
        if origins[i] is Some {
            let k = origins[i]->0 as int;
            assert(previous[k].task_id < next_task_id);
        }
    }
    assert forall|i: int, j: int|
        0 <= i < latest.len() && 0 <= j < latest.len() && i != j implies #[trigger] latest[i].task_id
        != #[trigger] latest[j].task_id by {
        lemma_fresh_count_bounds(origins, i, i);
        lemma_fresh_count_bounds(origins, j, j);
        if origins[i] is Some && origins[j] is Some {
            let a = origins[i]->0 as int;
            let b = origins[j]->0 as int;
            assert(a != b);
            assert(previous[a].task_id != previous[b].task_id);
        } else if origins[i] is None && origins[j] is None {
            if i < j {
                lemma_fresh_count_bounds(origins, i, j);
            } else {
                lemma_fresh_count_bounds(origins, j, i);
            }
        } else if origins[i] is Some {
            let a = origins[i]->0 as int;
            assert(previous[a].task_id < next_task_id);
        } else {
            let b = origins[j]->0 as int;
            assert(previous[b].task_id < next_task_id);
        }
    }
}

// ---------------------------------------------------------------------------
// Command cards and guards of task actions
// ---------------------------------------------------------------------------

/// The two kinds of command card that wait for a decision.
#[derive(PartialEq, Eq, Structural, Debug, Clone, Copy)]
pub enum CommandCardKind {
    Delete,
    Run,
}

/// What is done with a pending command.
#[derive(PartialEq, Eq, Structural, Debug, Clone, Copy)]
pub enum CommandDecision {
    Allow,
    Reject,
}

impl CommandCardKind {
    /// A card whose class names the delete card is a delete card; any other
    /// card runs a command.
    pub fn from_class_name(class_name: &str) -> (r: CommandCardKind)
        ensures
            r == (if contains_seq(class_name@, DELETE_COMMAND_CARD_CLASS@) {
                CommandCardKind::Delete
            } else {
                CommandCardKind::Run
            }),
    {
        if contains_str(class_name, DELETE_COMMAND_CARD_CLASS) {
            CommandCardKind::Delete
        } else {
            CommandCardKind::Run
        }
    }

    /// The element that shows the command text of this kind of card.
    pub fn raw_command_selector(self) -> (r: &'static str)
        ensures
            r == (match self {
                CommandCardKind::Delete => DELETE_COMMAND_TEXT_SELECTOR,
                CommandCardKind::Run => RUN_COMMAND_TEXT_SELECTOR,
            }),
    {
        match self {
            CommandCardKind::Delete => DELETE_COMMAND_TEXT_SELECTOR,
            CommandCardKind::Run => RUN_COMMAND_TEXT_SELECTOR,
        }
    }

    /// The button that carries out `decision` on this kind of card.
    pub fn action_button_selector(self, decision: CommandDecision) -> (r: &'static str)
        ensures
            r == (match (self, decision) {
                (CommandCardKind::Delete, CommandDecision::Allow) => DELETE_COMMAND_ALLOW_SELECTOR,
                (CommandCardKind::Delete, CommandDecision::Reject) => DELETE_COMMAND_REJECT_SELECTOR,
                (CommandCardKind::Run, CommandDecision::Allow) => RUN_COMMAND_ALLOW_SELECTOR,
                (CommandCardKind::Run, CommandDecision::Reject) => RUN_COMMAND_REJECT_SELECTOR,
            }),
    {
        match (self, decision) {
            (CommandCardKind::Delete, CommandDecision::Allow) => DELETE_COMMAND_ALLOW_SELECTOR,
            (CommandCardKind::Delete, CommandDecision::Reject) => DELETE_COMMAND_REJECT_SELECTOR,
            (CommandCardKind::Run, CommandDecision::Allow) => RUN_COMMAND_ALLOW_SELECTOR,
            (CommandCardKind::Run, CommandDecision::Reject) => RUN_COMMAND_REJECT_SELECTOR,
        }
    }

    /// Allowing a delete card opens a popover that asks for confirmation.
    pub fn needs_confirmation(self, decision: CommandDecision) -> (r: bool)
        ensures
            r == (self == CommandCardKind::Delete && decision == CommandDecision::Allow),
    {
        match (self, decision) {
            (CommandCardKind::Delete, CommandDecision::Allow) => true,
            _ => false,
        }
    }
}

/// The card that waits on a task for a human.
#[derive(PartialEq, Eq, Structural, Debug, Clone, Copy)]
pub enum PendingCard {
    /// A command waits for approval.
    Command,
    /// The agent asks a question.
    Question,
}

/// What is done with the card that waits on a task.
#[derive(PartialEq, Eq, Structural, Debug, Clone, Copy)]
pub enum HumanInLoopAction {
    /// Allow or reject the pending command.
    AnswerCommand(CommandDecision),
    /// Cancel the question.
    CancelQuestion,
    /// Answer the question with its first option.
    PickFirstOption,
    /// The strategy needs a model; nothing is done automatically.
    NotAutomated,
}

/// The answer to `card` under the configured strategies: a command by the
/// command strategy (`allow`, `deny`), a question by the question strategy
/// (`skip` cancels it, `auto` takes the first option); `llm` is not automated.
///
/// The configuration only names the strategies; this function is where their
/// meaning is fixed. `auto` taking the first option, and `llm` leaving the card
/// to a human (no model is called), are choices of this library.
pub fn human_in_loop_action(
    card: PendingCard,
    commands: CommandStrategy,
    questions: QuestionStrategy,
) -> (r: HumanInLoopAction)
    ensures
        r == (match card {
            PendingCard::Command => match commands {
                CommandStrategy::Allow => HumanInLoopAction::AnswerCommand(CommandDecision::Allow),
                CommandStrategy::Deny => HumanInLoopAction::AnswerCommand(CommandDecision::Reject),
                CommandStrategy::LLM => HumanInLoopAction::NotAutomated,
            },
            PendingCard::Question => match questions {
                QuestionStrategy::Skip => HumanInLoopAction::CancelQuestion,
                QuestionStrategy::Auto => HumanInLoopAction::PickFirstOption,
                QuestionStrategy::LLM => HumanInLoopAction::NotAutomated,
            },
        }),
{
    match card {
        PendingCard::Command => match commands.decision() {
            Some(decision) => HumanInLoopAction::AnswerCommand(decision),
            None => HumanInLoopAction::NotAutomated,
        },
        PendingCard::Question => match questions {
            QuestionStrategy::Skip => HumanInLoopAction::CancelQuestion,
            QuestionStrategy::Auto => HumanInLoopAction::PickFirstOption,
            QuestionStrategy::LLM => HumanInLoopAction::NotAutomated,
        },
    }
}

impl CommandDecision {
    /// The log line printed once a command was answered.
    pub fn log_line(self, raw_command: &str) -> (r: String)
        ensures
            r@ == (match self {
                CommandDecision::Allow => "Allowed"@,
                CommandDecision::Reject => "Rejected"@,
            }) + " Command: "@ + raw_command@,
    {
        let mut out = String::from_str(self.log_label());
        out.append(" Command: ");
        out.append(raw_command);
        out
    }

    /// The word that the log line of a decision starts with.
    pub fn log_label(self) -> (r: &'static str)
        ensures
            r@ == (match self {
                CommandDecision::Allow => "Allowed"@,
                CommandDecision::Reject => "Rejected"@,
            }),
    {
        match self {
            CommandDecision::Allow => "Allowed",
            CommandDecision::Reject => "Rejected",
        }
    }
}

impl TraeSoloTaskFeedback {
    /// The button that gives this feedback.
    pub fn button_selector(self) -> (r: &'static str)
        ensures
            r == (match self {
                TraeSoloTaskFeedback::Good => FEEDBACK_GOOD_BUTTON_SELECTOR,
                TraeSoloTaskFeedback::Bad => FEEDBACK_BAD_BUTTON_SELECTOR,
            }),
    {
        match self {
            TraeSoloTaskFeedback::Good => FEEDBACK_GOOD_BUTTON_SELECTOR,
            TraeSoloTaskFeedback::Bad => FEEDBACK_BAD_BUTTON_SELECTOR,
        }
    }
}

/// Why an action on a task was refused because of its status.
#[derive(PartialEq, Eq, Structural, Debug, Clone, Copy)]
pub enum TaskActionRefusal {
    /// Only a running task, or one waiting for a human, can be terminated.
    NotStarted,
    /// Input cannot be sent while the task runs or waits for a human.
    StillRunning,
    /// Copy, feedback and retry need a finished or interrupted task.
    NotInteroperable,
}

impl TaskActionRefusal {
    pub open spec fn spec_message(self) -> Seq<char> {
        match self {
            TaskActionRefusal::NotStarted => "You cannot terminate the task as it's not started yet."@,
            TaskActionRefusal::StillRunning => "You cannot click send button as the task is still running. Invoke `terminate` method first."@,
            TaskActionRefusal::NotInteroperable => "Actions can only be trigger under Finished/Interrupted status."@,
        }
    }

    pub fn message(&self) -> (r: &'static str)
        ensures
            r@ == self.spec_message(),
    {
        match self {
            TaskActionRefusal::NotStarted => "You cannot terminate the task as it's not started yet.",
            TaskActionRefusal::StillRunning => "You cannot click send button as the task is still running. Invoke `terminate` method first.",
            TaskActionRefusal::NotInteroperable => "Actions can only be trigger under Finished/Interrupted status.",
        }
    }
}

/// A task can be terminated while it runs or waits for a human.
pub fn check_can_terminate(status: TraeTaskStatus) -> (r: Result<(), TaskActionRefusal>)
    ensures
        r == (if status == TraeTaskStatus::Running || status == TraeTaskStatus::WaitingForHITL {
            Ok::<(), TaskActionRefusal>(())
        } else {
            Err(TaskActionRefusal::NotStarted)
        }),
{
    match status {
        TraeTaskStatus::Running | TraeTaskStatus::WaitingForHITL => Ok(()),
        _ => Err(TaskActionRefusal::NotStarted),
    }
}

/// The send button may be clicked for a finished, interrupted or idle task.
pub fn check_can_send(status: TraeTaskStatus) -> (r: Result<(), TaskActionRefusal>)
    ensures
        r == (if status == TraeTaskStatus::Finished || status == TraeTaskStatus::Interrupted
            || status == TraeTaskStatus::Idle {
            Ok::<(), TaskActionRefusal>(())
        } else {
            Err(TaskActionRefusal::StillRunning)
        }),
{
    match status {
        TraeTaskStatus::Finished | TraeTaskStatus::Interrupted | TraeTaskStatus::Idle => Ok(()),
        _ => Err(TaskActionRefusal::StillRunning),
    }
}

/// Copy, feedback and retry are only offered on a finished or interrupted task.
pub fn check_interoperable(status: TraeTaskStatus) -> (r: Result<(), TaskActionRefusal>)
    ensures
        r == (if status == TraeTaskStatus::Finished || status == TraeTaskStatus::Interrupted {
            Ok::<(), TaskActionRefusal>(())
        } else {
            Err(TaskActionRefusal::NotInteroperable)
        }),
{
    match status {
        TraeTaskStatus::Finished | TraeTaskStatus::Interrupted => Ok(()),
        _ => Err(TaskActionRefusal::NotInteroperable),
    }
}

/// What needs the SOLO layout: reading the sidebar task list, or opening a task.
#[derive(PartialEq, Eq, Structural, Debug, Clone, Copy)]
pub enum SoloAction {
    GetTasks,
    CreateTask,
}

/// An action refused because the editor is in the IDE layout.
#[derive(PartialEq, Eq, Structural, Debug, Clone, Copy)]
pub enum ModeRefusal {
    NotSolo(SoloAction),
}

impl ModeRefusal {
    pub open spec fn spec_message(self) -> Seq<char> {
        match self {
            ModeRefusal::NotSolo(SoloAction::GetTasks) => "Cannot get tasks under IDE mode, please switch to SOLO mode."@,
            ModeRefusal::NotSolo(SoloAction::CreateTask) => "Cannot create task under IDE mode, please switch to SOLO mode first."@,
        }
    }

    pub fn message(&self) -> (r: &'static str)
        ensures
            r@ == self.spec_message(),
    {
        match self {
            ModeRefusal::NotSolo(SoloAction::GetTasks) => "Cannot get tasks under IDE mode, please switch to SOLO mode.",
            ModeRefusal::NotSolo(SoloAction::CreateTask) => "Cannot create task under IDE mode, please switch to SOLO mode first.",
        }
    }
}

/// The task list and new tasks exist only in the SOLO layout.
pub fn check_solo_mode(mode: TraeEditorMode, action: SoloAction) -> (r: Result<(), ModeRefusal>)
    ensures
        r == (if mode == TraeEditorMode::SOLO {
            Ok::<(), ModeRefusal>(())
        } else {
            Err(ModeRefusal::NotSolo(action))
        }),
{
    match mode {
        TraeEditorMode::SOLO => Ok(()),
        TraeEditorMode::IDE => Err(ModeRefusal::NotSolo(action)),
    }
}

// ---------------------------------------------------------------------------
// Retries of actions on tasks that stay stuck
// ---------------------------------------------------------------------------

/// An action was run for a task in `status`; if the task is still in that
/// status at a later refresh, the action is tried again, up to a limit.
#[derive(PartialEq, Eq, Structural, Debug, Clone, Copy)]
pub struct PendingUiActionRetry {
    pub status: TraeTaskStatus,
    pub attempts: u32,
    pub warned: bool,
}

/// What a refresh does with the pending entry of `task`: `None` drops it (the
/// task left the recorded status or is gone), otherwise the entry to keep,
/// whether the action is run again, and whether the give-up warning is raised.
pub open spec fn retry_decision(
    pending: Map<u64, PendingUiActionRetry>,
    task: TraeTask,
    max_retry: u32,
) -> Option<(PendingUiActionRetry, bool, bool)> {
    if pending.contains_key(task.task_id) && pending[task.task_id].status == task.status {
        let entry = pending[task.task_id];
        if entry.attempts < max_retry {
            Some((PendingUiActionRetry { attempts: (entry.attempts + 1) as u32, ..entry }, true, false))
        } else if !entry.warned {
            Some((PendingUiActionRetry { warned: true, ..entry }, false, true))
        } else {
            Some((entry, false, false))
        }
    } else {
        None
    }
}

/// The events re-raised, the tasks warned about, and the entries kept when
/// `latest` is swept against `pending`, task by task in the order of `latest`.
pub open spec fn retry_sweep(
    latest: Seq<TraeTask>,
    pending: Map<u64, PendingUiActionRetry>,
    max_retry: u32,
) -> (Seq<TaskStatusChangeEvent>, Seq<TraeTask>, Map<u64, PendingUiActionRetry>)
    decreases latest.len(),
{
    if latest.len() == 0 {
        (Seq::empty(), Seq::empty(), Map::empty())
    } else {
        let (events, warned, kept) = retry_sweep(latest.drop_last(), pending, max_retry);
        let task = latest.last();
        match retry_decision(pending, task, max_retry) {
            Some((entry, again, warn)) => (
                if again {
                    events.push(
                        TaskStatusChangeEvent { task, previous_status: Some(task.status) },
                    )
                } else {
                    events
                },
                if warn {
                    warned.push(task)
                } else {
                    warned
                },
                kept.insert(task.task_id, entry),
            ),
            None => (events, warned, kept),
        }
    }
}

/// Re-raises the event of every task that is still stuck in the status for
/// which an action was run, while the attempt limit is not reached; at the
/// limit the task is warned about once. Entries of tasks that left their
/// status, or are gone, are dropped.
pub fn collect_pending_retry_events(
    latest: &[TraeTask],
    pending: &mut HashMap<u64, PendingUiActionRetry>,
    max_retry: u32,
) -> (r: (Vec<TaskStatusChangeEvent>, Vec<TraeTask>))
    ensures
        ({
            let sweep = retry_sweep(latest@, old(pending)@, max_retry);
            &&& r.0@ == sweep.0
            &&& r.1@ == sweep.1
            &&& final(pending)@ == sweep.2
        }),
{
    broadcast use vstd::std_specs::hash::group_hash_axioms;

    let mut events: Vec<TaskStatusChangeEvent> = Vec::new();
    let mut warned: Vec<TraeTask> = Vec::new();
    let mut kept: HashMap<u64, PendingUiActionRetry> = HashMap::new();
    let n = latest.len();
    let mut i: usize = 0;
    while i < n
        invariant
            n == latest@.len(),
            i <= n,
            ({
                let sweep = retry_sweep(latest@.take(i as int), pending@, max_retry);
                &&& events@ == sweep.0
                &&& warned@ == sweep.1
                &&& kept@ == sweep.2
            }),
        decreases n - i,
    {
        proof {
            assert(latest@.take(i + 1).drop_last() =~= latest@.take(i as int));
        }
        let task = &latest[i];
        match pending.get(&task.task_id) {
            Some(found) => {
                let entry: PendingUiActionRetry = *found;
                if entry.status == task.status {
                    if entry.attempts < max_retry {
                        events.push(
                            TaskStatusChangeEvent {
                                task: task.clone(),
                                previous_status: Some(task.status),
                            },
                        );
                        kept.insert(
                            task.task_id,
                            PendingUiActionRetry { attempts: entry.attempts + 1, ..entry },
                        );
                    } else if !entry.warned {
                        warned.push(task.clone());
                        kept.insert(task.task_id, PendingUiActionRetry { warned: true, ..entry });
                    } else {
                        kept.insert(task.task_id, entry);
                    }
                }
            },
            None => {},
        }
        i = i + 1;
    }
    assert(latest@.take(n as int) =~= latest@);
    *pending = kept;
    (events, warned)
}

/// A task is warned about only when its entry had run out of attempts and had
/// not been warned yet; afterwards its entry is marked as warned.
pub proof fn lemma_retry_sweep_warned(
    latest: Seq<TraeTask>,
    pending: Map<u64, PendingUiActionRetry>,
    max_retry: u32,
)
    ensures
        ({
            let sweep = retry_sweep(latest, pending, max_retry);
            forall|j: int|
                0 <= j < sweep.1.len() ==> {
                    let id = #[trigger] sweep.1[j].task_id;
                    &&& pending.contains_key(id)
                    &&& !pending[id].warned
                    &&& pending[id].attempts >= max_retry
                    &&& pending[id].status == sweep.1[j].status
                    &&& sweep.2.contains_key(id)
                    &&& sweep.2[id].warned
                }
        }),
    decreases latest.len(),
{
    if latest.len() > 0 {
        lemma_retry_sweep_warned(latest.drop_last(), pending, max_retry);
    }
}

/// Warn once: a task warned about by one sweep is not warned about again by
/// the next sweep over the same list.
pub proof fn lemma_retry_warns_once(
    latest: Seq<TraeTask>,
    pending: Map<u64, PendingUiActionRetry>,
    max_retry: u32,
)
    ensures
        ({
            let first = retry_sweep(latest, pending, max_retry);
            let second = retry_sweep(latest, first.2, max_retry);
            forall|a: int, b: int|
                0 <= a < second.1.len() && 0 <= b < first.1.len() ==> #[trigger] second.1[a].task_id
                    != #[trigger] first.1[b].task_id
        }),
{
    let first = retry_sweep(latest, pending, max_retry);
    lemma_retry_sweep_warned(latest, pending, max_retry);
    lemma_retry_sweep_warned(latest, first.2, max_retry);
}

/// Only entries of tasks still stuck in their recorded status are kept; a kept
/// entry keeps its status, and its attempts stay within the limit when they
/// were within it before.
pub proof fn lemma_retry_sweep_keeps_stuck_entries(
    latest: Seq<TraeTask>,
    pending: Map<u64, PendingUiActionRetry>,
    max_retry: u32,
)
    ensures
        ({
            let kept = retry_sweep(latest, pending, max_retry).2;
            forall|id: u64|
                #[trigger] kept.contains_key(id) ==> {
                    &&& pending.contains_key(id)
                    &&& kept[id].status == pending[id].status
                    &&& exists|i: int|
                        0 <= i < latest.len() && latest[i].task_id == id && latest[i].status
                            == pending[id].status
                    &&& pending[id].attempts <= max_retry ==> kept[id].attempts <= max_retry
                }
        }),
    decreases latest.len(),
{
    if latest.len() > 0 {
        let d = latest.drop_last();
        lemma_retry_sweep_keeps_stuck_entries(d, pending, max_retry);
        let kept = retry_sweep(latest, pending, max_retry).2;
        let before = retry_sweep(d, pending, max_retry).2;
        assert forall|id: u64| #[trigger] kept.contains_key(id) implies exists|i: int|
            0 <= i < latest.len() && latest[i].task_id == id && latest[i].status
                == pending[id].status by {
            if id == latest.last().task_id && retry_decision(pending, latest.last(), max_retry)
                is Some {
                assert(latest[latest.len() - 1] == latest.last());
            } else {
                assert(before.contains_key(id));
                let i = choose|i: int|
                    0 <= i < d.len() && d[i].task_id == id && d[i].status == pending[id].status;
                assert(latest[i] == d[i]);
            }
        }
    }
}

/// A task still stuck in the status its entry records has its action raised
/// again while attempts remain, and is warned about once they ran out.
pub proof fn lemma_stuck_task_is_retried_or_warned(
    latest: Seq<TraeTask>,
    pending: Map<u64, PendingUiActionRetry>,
    max_retry: u32,
    i: int,
)
    requires
        0 <= i < latest.len(),
        pending.contains_key(latest[i].task_id),
        pending[latest[i].task_id].status == latest[i].status,
    ensures
        ({
            let sweep = retry_sweep(latest, pending, max_retry);
            let entry = pending[latest[i].task_id];
            &&& entry.attempts < max_retry ==> sweep.0.contains(
                TaskStatusChangeEvent { task: latest[i], previous_status: Some(latest[i].status) },
            )
            &&& entry.attempts >= max_retry && !entry.warned ==> sweep.1.contains(latest[i])
        }),
    decreases latest.len(),
{
    let d = latest.drop_last();
    let before = retry_sweep(d, pending, max_retry);
    let sweep = retry_sweep(latest, pending, max_retry);
    if i < latest.len() - 1 {
        assert(d[i] == latest[i]);
        lemma_stuck_task_is_retried_or_warned(d, pending, max_retry, i);
        let entry = pending[latest[i].task_id];
        if entry.attempts < max_retry {
            let e = TaskStatusChangeEvent { task: latest[i], previous_status: Some(latest[i].status) };
            let k = choose|k: int| 0 <= k < before.0.len() && before.0[k] == e;
            assert(sweep.0[k] == e);
        }
        if entry.attempts >= max_retry && !entry.warned {
            let k = choose|k: int| 0 <= k < before.1.len() && before.1[k] == latest[i];
            assert(sweep.1[k] == latest[i]);
        }
    } else {
        assert(latest.last() == latest[i]);
        let entry = pending[latest[i].task_id];
        if entry.attempts < max_retry {
            assert(sweep.0[sweep.0.len() - 1] == TaskStatusChangeEvent {
                task: latest[i],
                previous_status: Some(latest[i].status),
            });
        }
        if entry.attempts >= max_retry && !entry.warned {
            assert(sweep.1[sweep.1.len() - 1] == latest[i]);
        }
    }
}

} // verus!
