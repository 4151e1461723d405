//! Automation of the sidebar task list of the IDE.

pub mod consts;
pub mod editor;
pub mod tracker;
pub mod types;
pub mod workflow;

pub use editor::{
    check_can_send, check_can_terminate, check_interoperable, check_solo_mode,
    collect_pending_retry_events, ModeRefusal, SoloAction,
    human_in_loop_action,
    index_of_task_id, mode_from_badge_text, parse_task_status, reconcile_task_snapshots,
    task_by_index, tasks_from_rows, CommandCardKind, CommandDecision, HumanInLoopAction, PendingCard, PendingUiActionRetry,
    TaskActionRefusal, TaskListHint, TaskRow, TraeEditorBuilder,
};
pub use tracker::TaskTracker;
pub use types::{
    build_task_workflow, ActionChain, ActionOp, InitialTaskPolicy, TaskStatusChangeEvent, TaskWorkflow,
    TraeEditorMode, TraeEditorPrebuiltSoloAgent, TraeSoloTaskFeedback, TraeTask, TraeTaskStatus,
};
pub use workflow::{chain_calls, diff_task_status_changes, step_call, CustomActionExample, StepCall};
