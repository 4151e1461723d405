//! Tasks as seen in the sidebar, their status, the events raised when a status
//! changes, and the action chains that a workflow runs for each status.

use vstd::prelude::*;

verus! {

/// The two layouts of the editor.
#[derive(PartialEq, Eq, Structural, Debug, Clone, Copy)]
pub enum TraeEditorMode {
    SOLO,
    IDE,
}

impl TraeEditorMode {
    /// The mode that the mode switch leads to from `self`.
    pub open spec fn spec_toggled(self) -> TraeEditorMode {
        match self {
            TraeEditorMode::SOLO => TraeEditorMode::IDE,
            TraeEditorMode::IDE => TraeEditorMode::SOLO,
        }
    }

    /// The mode after one click on the mode switch.
    pub fn toggled(self) -> (r: TraeEditorMode)
        ensures
            r == self.spec_toggled(),
            r != self,
    {
        match self {
            TraeEditorMode::SOLO => TraeEditorMode::IDE,
            TraeEditorMode::IDE => TraeEditorMode::SOLO,
        }
    }
}

/// Two clicks on the mode switch lead back to the mode one started from.
pub proof fn lemma_toggle_twice(mode: TraeEditorMode)
    ensures
        mode.spec_toggled().spec_toggled() == mode,
        mode.spec_toggled() != mode,
{
}

/// Agents that a new task can be handed to.
#[derive(PartialEq, Eq, Structural, Debug, Clone, Copy)]
pub enum TraeEditorPrebuiltSoloAgent {
    Coder,
    Builder,
}

/// Feedback that can be given on a finished task.
#[derive(PartialEq, Eq, Structural, Debug, Clone, Copy)]
pub enum TraeSoloTaskFeedback {
    Good,
    Bad,
}

/// Status of a task in the sidebar.
#[derive(PartialEq, Eq, Structural, Debug, Clone, Copy)]
pub enum TraeTaskStatus {
    Idle,
    Running,
    Interrupted,
    WaitingForHITL,
    Finished,
}

/// The status that a task that waits for automation can be in: it stopped
/// (`Interrupted`, `Finished`) or it waits for a human decision.
pub open spec fn is_actionable_status(status: TraeTaskStatus) -> bool {
    status == TraeTaskStatus::Interrupted || status == TraeTaskStatus::Finished || status
        == TraeTaskStatus::WaitingForHITL
}

/// The status of a task that is stuck until an action is taken on it; such
/// actions are tried again while the task stays in that status.
pub open spec fn is_retryable_status(status: TraeTaskStatus) -> bool {
    status == TraeTaskStatus::Interrupted || status == TraeTaskStatus::WaitingForHITL
}

impl TraeTaskStatus {
    /// The name of the status.
    pub open spec fn spec_name(self) -> Seq<char> {
        match self {
            TraeTaskStatus::Idle => "Idle"@,
            TraeTaskStatus::Running => "Running"@,
            TraeTaskStatus::Interrupted => "Interrupted"@,
            TraeTaskStatus::WaitingForHITL => "WaitingForHITL"@,
            TraeTaskStatus::Finished => "Finished"@,
        }
    }

    /// The name of the status, as printed in event logs.
    pub fn as_str(&self) -> (r: &'static str)
        ensures
            r@ == self.spec_name(),
    {
        match self {
            TraeTaskStatus::Idle => "Idle",
            TraeTaskStatus::Running => "Running",
            TraeTaskStatus::Interrupted => "Interrupted",
            TraeTaskStatus::WaitingForHITL => "WaitingForHITL",
            TraeTaskStatus::Finished => "Finished",
        }
    }
}

/// A task as it stands in the latest sidebar snapshot.
///
/// `task_id` is the identity that this process gives the task and keeps across
/// snapshots; `index` is only where the task stands in the sidebar right now.
#[derive(Debug, PartialEq)]
pub struct TraeTask {
    pub task_id: u64,
    pub title: String,
    pub status: TraeTaskStatus,
    pub selected: bool,
    pub index: usize,
}

impl Clone for TraeTask {
    fn clone(&self) -> (r: Self)
        ensures
            r == *self,
    {
        TraeTask {
            task_id: self.task_id,
            title: self.title.clone(),
            status: self.status,
            selected: self.selected,
            index: self.index,
        }
    }
}

impl TraeTask {
    pub fn is_running(&self) -> (r: bool)
        ensures
            r == (self.status == TraeTaskStatus::Running),
    {
        matches!(self.status, TraeTaskStatus::Running)
    }

    pub fn is_finished(&self) -> (r: bool)
        ensures
            r == (self.status == TraeTaskStatus::Finished),
    {
        matches!(self.status, TraeTaskStatus::Finished)
    }

    pub fn is_waiting_for_hitl(&self) -> (r: bool)
        ensures
            r == (self.status == TraeTaskStatus::WaitingForHITL),
    {
        matches!(self.status, TraeTaskStatus::WaitingForHITL)
    }

    /// A task is terminal once it stopped: interrupted or finished.
    pub fn is_terminal(&self) -> (r: bool)
        ensures
            r == (self.status == TraeTaskStatus::Interrupted || self.status
                == TraeTaskStatus::Finished),
    {
        matches!(self.status, TraeTaskStatus::Interrupted | TraeTaskStatus::Finished)
    }
}

/// A task whose status differs from the one it had in the previous snapshot,
/// or a task seen for the first time (`previous_status` is `None`).
#[derive(Debug, PartialEq)]
pub struct TaskStatusChangeEvent {
    pub task: TraeTask,
    pub previous_status: Option<TraeTaskStatus>,
}

impl Clone for TaskStatusChangeEvent {
    fn clone(&self) -> (r: Self)
        ensures
            r == *self,
    {
        TaskStatusChangeEvent { task: self.task.clone(), previous_status: self.previous_status }
    }
}

impl TaskStatusChangeEvent {
    /// The log line of the event: title, previous status (`Initial` for a new
    /// task) and current status.
    pub open spec fn spec_describe(self) -> Seq<char> {
        "Task event: ["@ + self.task.title@ + "] "@ + match self.previous_status {
            Some(s) => s.spec_name(),
            None => "Initial"@,
        } + " -> "@ + self.task.status.spec_name()
    }

    pub fn describe(&self) -> (r: String)
        ensures
            r@ == self.spec_describe(),
    {
        let mut out = String::from_str("Task event: [");
        out.append(self.task.title.as_str());
        out.append("] ");
        match self.previous_status {
            Some(s) => out.append(s.as_str()),
            None => out.append("Initial"),
        }
        out.append(" -> ");
        out.append(self.task.status.as_str());
        out
    }

    pub fn current_status(&self) -> (r: TraeTaskStatus)
        ensures
            r == self.task.status,
    {
        self.task.status
    }

    pub fn task_id(&self) -> (r: u64)
        ensures
            r == self.task.task_id,
    {
        self.task.task_id
    }
}

/// One step of an action chain. `C` is the type of the custom actions that
/// the user of the library supplies.
#[derive(Debug, Clone)]
pub enum ActionOp<C> {
    /// Opens a new task in the chat input.
    NewTask,
    FocusTask,
    FocusChatInput,
    ClearChatInput,
    TypeText(String),
    PressEnter,
    ClickSelector(String),
    ClickButtonByText(String),
    WaitForSelector { selector: String, timeout_ms: u64 },
    AllowCommand,
    RejectCommand,
    /// The single entry for a task that waits for a human: which card is
    /// shown (a command or a question) is decided on the live page.
    HandleHumanInLoop,
    SleepMs(u64),
    Custom(C),
}

/// A sequence of steps, run in order.
#[derive(Debug, Clone)]
pub struct ActionChain<C> {
    pub steps: Vec<ActionOp<C>>,
}

impl<C> ActionChain<C> {
    pub fn new() -> (r: Self)
        ensures
            r.steps@ == Seq::<ActionOp<C>>::empty(),
    {
        ActionChain { steps: Vec::new() }
    }

    /// The chain with `step` appended.
    pub fn then_step(self, step: ActionOp<C>) -> (r: Self)
        ensures
            r.steps@ == self.steps@.push(step),
    {
        let mut s = self;
        s.steps.push(step);
        s
    }

    pub fn new_task(self) -> (r: Self)
        ensures
            r.steps@ == self.steps@.push(ActionOp::NewTask),
    {
        self.then_step(ActionOp::NewTask)
    }

    pub fn focus_task(self) -> (r: Self)
        ensures
            r.steps@ == self.steps@.push(ActionOp::FocusTask),
    {
        self.then_step(ActionOp::FocusTask)
    }

    pub fn focus_chat_input(self) -> (r: Self)
        ensures
            r.steps@ == self.steps@.push(ActionOp::FocusChatInput),
    {
        self.then_step(ActionOp::FocusChatInput)
    }

    pub fn clear_chat_input(self) -> (r: Self)
        ensures
            r.steps@ == self.steps@.push(ActionOp::ClearChatInput),
    {
        self.then_step(ActionOp::ClearChatInput)
    }

    pub fn type_text(self, text: String) -> (r: Self)
        ensures
            r.steps@ == self.steps@.push(ActionOp::TypeText(text)),
    {
        self.then_step(ActionOp::TypeText(text))
    }

    pub fn press_enter(self) -> (r: Self)
        ensures
            r.steps@ == self.steps@.push(ActionOp::PressEnter),
    {
        self.then_step(ActionOp::PressEnter)
    }

    pub fn click_selector(self, selector: String) -> (r: Self)
        ensures
            r.steps@ == self.steps@.push(ActionOp::ClickSelector(selector)),
    {
        self.then_step(ActionOp::ClickSelector(selector))
    }

    pub fn click_button_by_text(self, text: String) -> (r: Self)
        ensures
            r.steps@ == self.steps@.push(ActionOp::ClickButtonByText(text)),
    {
        self.then_step(ActionOp::ClickButtonByText(text))
    }

    pub fn wait_for_selector(self, selector: String, timeout_ms: u64) -> (r: Self)
        ensures
            r.steps@ == self.steps@.push(ActionOp::WaitForSelector { selector, timeout_ms }),
    {
        self.then_step(ActionOp::WaitForSelector { selector, timeout_ms })
    }

    pub fn sleep_ms(self, ms: u64) -> (r: Self)
        ensures
            r.steps@ == self.steps@.push(ActionOp::SleepMs(ms)),
    {
        self.then_step(ActionOp::SleepMs(ms))
    }

    pub fn allow_command(self) -> (r: Self)
        ensures
            r.steps@ == self.steps@.push(ActionOp::AllowCommand),
    {
        self.then_step(ActionOp::AllowCommand)
    }

    pub fn reject_command(self) -> (r: Self)
        ensures
            r.steps@ == self.steps@.push(ActionOp::RejectCommand),
    {
        self.then_step(ActionOp::RejectCommand)
    }

    pub fn handle_human_in_loop(self) -> (r: Self)
        ensures
            r.steps@ == self.steps@.push(ActionOp::HandleHumanInLoop),
    {
        self.then_step(ActionOp::HandleHumanInLoop)
    }

    pub fn custom(self, action: C) -> (r: Self)
        ensures
            r.steps@ == self.steps@.push(ActionOp::Custom(action)),
    {
        self.then_step(ActionOp::Custom(action))
    }
}

/// What to do when a task reaches each actionable status.
#[derive(Debug, Clone)]
pub struct TaskWorkflow<C> {
    pub on_finished: ActionChain<C>,
    pub on_interrupted: ActionChain<C>,
    pub on_waiting_for_hitl: ActionChain<C>,
}

impl<C> TaskWorkflow<C> {
    /// The chain of the workflow for `status`, if it has one.
    pub open spec fn spec_chain_for(self, status: TraeTaskStatus) -> Option<ActionChain<C>> {
        match status {
            TraeTaskStatus::Finished => Some(self.on_finished),
            TraeTaskStatus::Interrupted => Some(self.on_interrupted),
            TraeTaskStatus::WaitingForHITL => Some(self.on_waiting_for_hitl),
            TraeTaskStatus::Idle | TraeTaskStatus::Running => None,
        }
    }

    pub fn chain_for_status(&self, status: TraeTaskStatus) -> (r: Option<&ActionChain<C>>)
        ensures
            match self.spec_chain_for(status) {
                Some(c) => r == Some(&c),
                None => r is None,
            },
    {
        match status {
            TraeTaskStatus::Finished => Some(&self.on_finished),
            TraeTaskStatus::Interrupted => Some(&self.on_interrupted),
            TraeTaskStatus::WaitingForHITL => Some(&self.on_waiting_for_hitl),
            TraeTaskStatus::Idle | TraeTaskStatus::Running => None,
        }
    }

    /// The chain to run for `event`: the one for its current status, unless
    /// there is none or it has no step, in which case nothing is run.
    pub fn chain_to_run(&self, event: &TaskStatusChangeEvent) -> (r: Option<&ActionChain<C>>)
        ensures
            match self.spec_chain_for(event.task.status) {
                Some(c) => if c.steps@.len() > 0 {
                    r == Some(&c)
                } else {
                    r is None
                },
                None => r is None,
            },
    {
        match self.chain_for_status(event.current_status()) {
            Some(chain) => {
                if chain.steps.len() == 0 {
                    None
                } else {
                    Some(chain)
                }
            },
            None => None,
        }
    }
}

/// The workflow of the runner: a finished task is followed by a new one, an
/// interrupted task is told to continue, and a task waiting for a human gets
/// its card answered.
pub fn build_task_workflow<C>() -> (r: TaskWorkflow<C>)
    ensures
        r.on_finished.steps@.len() == 6,
        r.on_finished.steps@[0] == ActionOp::<C>::NewTask,
        r.on_finished.steps@[1] == ActionOp::<C>::FocusChatInput,
        r.on_finished.steps@[2] == ActionOp::<C>::ClearChatInput,
        r.on_finished.steps@[3] matches ActionOp::TypeText(t) && t@ == "Create new task"@,
        r.on_finished.steps@[4] == ActionOp::<C>::SleepMs(1000),
        r.on_finished.steps@[5] == ActionOp::<C>::PressEnter,
        r.on_interrupted.steps@.len() == 6,
        r.on_interrupted.steps@[0] == ActionOp::<C>::FocusTask,
        r.on_interrupted.steps@[1] == ActionOp::<C>::FocusChatInput,
        r.on_interrupted.steps@[2] == ActionOp::<C>::ClearChatInput,
        r.on_interrupted.steps@[3] matches ActionOp::TypeText(t) && t@ == "\u{7EE7}\u{7EED}"@,
        r.on_interrupted.steps@[4] == ActionOp::<C>::SleepMs(1000),
        r.on_interrupted.steps@[5] == ActionOp::<C>::PressEnter,
        r.on_waiting_for_hitl.steps@ == seq![
            ActionOp::<C>::FocusTask,
            ActionOp::<C>::SleepMs(1000),
            ActionOp::<C>::HandleHumanInLoop,
        ],
{
    TaskWorkflow {
        on_finished: ActionChain::new().new_task().focus_chat_input().clear_chat_input().type_text(
            String::from_str("Create new task"),
        ).sleep_ms(1000).press_enter(),
        on_interrupted: ActionChain::new().focus_task().focus_chat_input().clear_chat_input().type_text(
            String::from_str("\u{7EE7}\u{7EED}"),
        ).sleep_ms(1000).press_enter(),
        on_waiting_for_hitl: ActionChain::new().focus_task().sleep_ms(1000).handle_human_in_loop(),
    }
}

/// Which tasks of the first snapshot raise an event.
#[derive(PartialEq, Eq, Structural, Debug, Clone, Copy)]
pub enum InitialTaskPolicy {
    Ignore,
    EmitAll,
    EmitTerminalAndWaiting,
}

impl InitialTaskPolicy {
    pub open spec fn spec_should_emit(self, status: TraeTaskStatus) -> bool {
        match self {
            InitialTaskPolicy::Ignore => false,
            InitialTaskPolicy::EmitAll => true,
            InitialTaskPolicy::EmitTerminalAndWaiting => status == TraeTaskStatus::Interrupted
                || status == TraeTaskStatus::WaitingForHITL,
        }
    }

    /// Whether a task found in `status` in the first snapshot raises an event.
    /// Finished tasks are left alone by `EmitTerminalAndWaiting`.
    pub fn should_emit(&self, status: TraeTaskStatus) -> (r: bool)
        ensures
            r == self.spec_should_emit(status),
    {
        match self {
            InitialTaskPolicy::Ignore => false,
            InitialTaskPolicy::EmitAll => true,
            InitialTaskPolicy::EmitTerminalAndWaiting => matches!(
                status,
                TraeTaskStatus::Interrupted | TraeTaskStatus::WaitingForHITL
            ),
        }
    }
}

} // verus!
