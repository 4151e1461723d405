use gothic::config::{
    config_write_allowed, default_log_directory, default_log_level, default_model_name,
    validate_config, validate_config_with_level_check, CommandStrategy, Config, LoggingConfig,
    ModelConfig, QuestionStrategy,
};
use gothic::text::{blank, char_is_white_space, contains_str, str_equal, trimmed};
use gothic::trae::consts::{
    DELETE_COMMAND_ALLOW_SELECTOR, DELETE_COMMAND_REJECT_SELECTOR, DELETE_COMMAND_TEXT_SELECTOR,
    FEEDBACK_BAD_BUTTON_SELECTOR, FEEDBACK_GOOD_BUTTON_SELECTOR, RUN_COMMAND_ALLOW_SELECTOR,
    RUN_COMMAND_REJECT_SELECTOR, RUN_COMMAND_TEXT_SELECTOR, TRAE_IDE_MODE_TEXT_LABEL,
    TRAE_SOLO_MODE_TEXT_LABEL, TRAE_SOLO_TASK_FINISHED_LABEL, TRAE_SOLO_TASK_INTERRUPTED_LABEL,
    TRAE_SOLO_TASK_RUNNING_LABEL, TRAE_SOLO_TASK_WAITING_FOR_HITL_LABEL,
};
use gothic::trae::{
    check_can_send, check_can_terminate, check_interoperable, collect_pending_retry_events,
    diff_task_status_changes, index_of_task_id, mode_from_badge_text, parse_task_status,
    reconcile_task_snapshots, task_by_index, tasks_from_rows, ActionChain, ActionOp,
    CommandCardKind, CommandDecision, CustomActionExample, InitialTaskPolicy, PendingUiActionRetry,
    TaskActionRefusal, TaskListHint, TaskRow, TaskStatusChangeEvent, TaskTracker, TaskWorkflow,
    TraeEditorMode, TraeSoloTaskFeedback, TraeTask, TraeTaskStatus,
};
use gothic::utils::{normalize_cdp_dir, normalize_executable_path_for_cdp};
use gothic::config::{log_level_panics_filter_parser, validate_config_checked};
use gothic::filter::{directive_outcome_at, filter_parser_would_panic, DirectiveOutcome};
use gothic::trae::{
    chain_calls, check_solo_mode, human_in_loop_action, step_call, HumanInLoopAction, ModeRefusal,
    PendingCard, SoloAction, StepCall,
};
use std::collections::HashMap;
use TraeTaskStatus::{Finished, Idle, Interrupted, Running, WaitingForHITL};

fn task(task_id: u64, title: &str, status: TraeTaskStatus, index: usize) -> TraeTask {
    TraeTask { task_id, title: title.to_string(), status, selected: false, index }
}

fn row(title: &str, status: TraeTaskStatus) -> TaskRow {
    TaskRow { title: title.to_string(), status, selected: false }
}

fn sample_config() -> Config {
    Config {
        trae_executable_path: "/opt/trae/trae".to_string(),
        command_strategy: CommandStrategy::Allow,
        question_strategy: QuestionStrategy::Auto,
        model: ModelConfig::default(),
        logging: LoggingConfig::default(),
        max_concurrent_task: 5,
        max_task_action_retry: 3,
        task_poll_interval_ms: 2000,
    }
}

#[test]
fn status_names_are_printed_as_variant_names() {
    assert_eq!(TraeTaskStatus::Idle.as_str(), "Idle");
    assert_eq!(TraeTaskStatus::Running.as_str(), "Running");
    assert_eq!(TraeTaskStatus::Interrupted.as_str(), "Interrupted");
    assert_eq!(TraeTaskStatus::WaitingForHITL.as_str(), "WaitingForHITL");
    assert_eq!(TraeTaskStatus::Finished.as_str(), "Finished");
}

#[test]
fn task_predicates_follow_status() {
    let t = task(1, "a", TraeTaskStatus::Interrupted, 0);
    assert!(t.is_terminal());
    assert!(!t.is_finished());
    assert!(!t.is_running());
    assert!(!t.is_waiting_for_hitl());
    let f = task(1, "a", TraeTaskStatus::Finished, 0);
    assert!(f.is_terminal() && f.is_finished());
    let w = task(1, "a", TraeTaskStatus::WaitingForHITL, 0);
    assert!(w.is_waiting_for_hitl() && !w.is_terminal());
    let r = task(1, "a", TraeTaskStatus::Running, 0);
    assert!(r.is_running() && !r.is_terminal());
}

#[test]
fn initial_policy_selects_tasks() {
    for s in [Idle, Running, Interrupted, WaitingForHITL, Finished] {
        assert!(!InitialTaskPolicy::Ignore.should_emit(s));
        assert!(InitialTaskPolicy::EmitAll.should_emit(s));
    }
    let p = InitialTaskPolicy::EmitTerminalAndWaiting;
    assert!(p.should_emit(Interrupted));
    assert!(p.should_emit(WaitingForHITL));
    assert!(!p.should_emit(Finished));
    assert!(!p.should_emit(Running));
    assert!(!p.should_emit(Idle));
}

#[test]
fn action_chain_builders_append_in_order() {
    let chain: ActionChain<u8> = ActionChain::new()
        .focus_task()
        .type_text("go".to_string())
        .sleep_ms(10)
        .wait_for_selector("#x".to_string(), 5)
        .custom(7)
        .handle_human_in_loop();
    assert_eq!(chain.steps.len(), 6);
    assert!(matches!(chain.steps[0], ActionOp::FocusTask));
    assert!(matches!(&chain.steps[1], ActionOp::TypeText(t) if t == "go"));
    assert!(matches!(chain.steps[2], ActionOp::SleepMs(10)));
    assert!(matches!(&chain.steps[3], ActionOp::WaitForSelector { selector, timeout_ms: 5 } if selector == "#x"));
    assert!(matches!(chain.steps[4], ActionOp::Custom(7)));
    assert!(matches!(chain.steps[5], ActionOp::HandleHumanInLoop));
}

#[test]
fn workflow_picks_chain_by_status_and_skips_empty_chains() {
    let workflow: TaskWorkflow<u8> = TaskWorkflow {
        on_finished: ActionChain::new().press_enter(),
        on_interrupted: ActionChain::new(),
        on_waiting_for_hitl: ActionChain::new().allow_command().reject_command(),
    };
    assert_eq!(workflow.chain_for_status(TraeTaskStatus::Finished).unwrap().steps.len(), 1);
    assert_eq!(workflow.chain_for_status(TraeTaskStatus::Interrupted).unwrap().steps.len(), 0);
    assert!(workflow.chain_for_status(TraeTaskStatus::Running).is_none());
    assert!(workflow.chain_for_status(TraeTaskStatus::Idle).is_none());
    let event = |s| TaskStatusChangeEvent { task: task(1, "a", s, 0), previous_status: None };
    assert!(workflow.chain_to_run(&event(TraeTaskStatus::Interrupted)).is_none());
    assert_eq!(workflow.chain_to_run(&event(TraeTaskStatus::WaitingForHITL)).unwrap().steps.len(), 2);
    assert!(workflow.chain_to_run(&event(TraeTaskStatus::Running)).is_none());
}

#[test]
fn status_labels_are_parsed_and_unknown_ones_are_idle() {
    assert_eq!(parse_task_status(TRAE_SOLO_TASK_RUNNING_LABEL), TraeTaskStatus::Running);
    assert_eq!(parse_task_status(TRAE_SOLO_TASK_INTERRUPTED_LABEL), TraeTaskStatus::Interrupted);
    assert_eq!(parse_task_status(TRAE_SOLO_TASK_FINISHED_LABEL), TraeTaskStatus::Finished);
    assert_eq!(
        parse_task_status(TRAE_SOLO_TASK_WAITING_FOR_HITL_LABEL),
        TraeTaskStatus::WaitingForHITL
    );
    assert_eq!(parse_task_status(""), TraeTaskStatus::Idle);
    assert_eq!(parse_task_status("Running"), TraeTaskStatus::Idle);
}

#[test]
fn task_rows_trim_titles_and_parse_labels() {
    let r = TaskRow::from_ui("  Build website \n", TRAE_SOLO_TASK_FINISHED_LABEL, true);
    assert_eq!(r.title, "Build website");
    assert_eq!(r.status, TraeTaskStatus::Finished);
    assert!(r.selected);
}

#[test]
fn mode_badge_names_the_other_mode() {
    assert_eq!(mode_from_badge_text(TRAE_SOLO_MODE_TEXT_LABEL), Some(TraeEditorMode::IDE));
    assert_eq!(mode_from_badge_text(TRAE_IDE_MODE_TEXT_LABEL), Some(TraeEditorMode::SOLO));
    assert_eq!(mode_from_badge_text("SOLO"), None);
    assert_eq!(TraeEditorMode::SOLO.toggled(), TraeEditorMode::IDE);
    assert_eq!(TraeEditorMode::IDE.toggled().toggled(), TraeEditorMode::IDE);
}

#[test]
fn command_cards_are_told_apart_by_class() {
    let delete = CommandCardKind::from_class_name("x icd-delete-files-command-card-v2 y");
    assert_eq!(delete, CommandCardKind::Delete);
    assert_eq!(CommandCardKind::from_class_name("icd-run-command-card-v2"), CommandCardKind::Run);
    assert_eq!(CommandCardKind::from_class_name(""), CommandCardKind::Run);
    assert_eq!(delete.raw_command_selector(), DELETE_COMMAND_TEXT_SELECTOR);
    assert_eq!(CommandCardKind::Run.raw_command_selector(), RUN_COMMAND_TEXT_SELECTOR);
    assert_eq!(delete.action_button_selector(CommandDecision::Allow), DELETE_COMMAND_ALLOW_SELECTOR);
    assert_eq!(delete.action_button_selector(CommandDecision::Reject), DELETE_COMMAND_REJECT_SELECTOR);
    assert_eq!(
        CommandCardKind::Run.action_button_selector(CommandDecision::Allow),
        RUN_COMMAND_ALLOW_SELECTOR
    );
    assert_eq!(
        CommandCardKind::Run.action_button_selector(CommandDecision::Reject),
        RUN_COMMAND_REJECT_SELECTOR
    );
    assert!(delete.needs_confirmation(CommandDecision::Allow));
    assert!(!delete.needs_confirmation(CommandDecision::Reject));
    assert!(!CommandCardKind::Run.needs_confirmation(CommandDecision::Allow));
    assert_eq!(CommandDecision::Allow.log_label(), "Allowed");
    assert_eq!(CommandDecision::Reject.log_label(), "Rejected");
    assert_eq!(TraeSoloTaskFeedback::Good.button_selector(), FEEDBACK_GOOD_BUTTON_SELECTOR);
    assert_eq!(TraeSoloTaskFeedback::Bad.button_selector(), FEEDBACK_BAD_BUTTON_SELECTOR);
}

#[test]
fn status_guards_of_task_actions() {
    assert_eq!(check_can_terminate(Running), Ok(()));
    assert_eq!(check_can_terminate(WaitingForHITL), Ok(()));
    assert_eq!(check_can_terminate(Finished), Err(TaskActionRefusal::NotStarted));
    assert_eq!(check_can_terminate(Idle), Err(TaskActionRefusal::NotStarted));
    assert_eq!(check_can_send(Idle), Ok(()));
    assert_eq!(check_can_send(Finished), Ok(()));
    assert_eq!(check_can_send(Interrupted), Ok(()));
    assert_eq!(check_can_send(Running), Err(TaskActionRefusal::StillRunning));
    assert_eq!(check_can_send(WaitingForHITL), Err(TaskActionRefusal::StillRunning));
    assert_eq!(check_interoperable(Finished), Ok(()));
    assert_eq!(check_interoperable(Interrupted), Ok(()));
    assert_eq!(check_interoperable(Idle), Err(TaskActionRefusal::NotInteroperable));
    assert_eq!(
        TaskActionRefusal::NotStarted.message(),
        "You cannot terminate the task as it's not started yet."
    );
    assert_eq!(
        TaskActionRefusal::StillRunning.message(),
        "You cannot click send button as the task is still running. Invoke `terminate` method first."
    );
    assert_eq!(
        TaskActionRefusal::NotInteroperable.message(),
        "Actions can only be trigger under Finished/Interrupted status."
    );
}

#[test]
fn follow_up_hint_moves_only_stopped_tasks() {
    let f = task(9, "a", TraeTaskStatus::Finished, 2);
    assert_eq!(TaskListHint::after_follow_up(&f), Some(TaskListHint::MoveTaskToFront { task_id: 9 }));
    let i = task(9, "a", TraeTaskStatus::Interrupted, 2);
    assert_eq!(TaskListHint::after_follow_up(&i), Some(TaskListHint::MoveTaskToFront { task_id: 9 }));
    let w = task(9, "a", TraeTaskStatus::WaitingForHITL, 2);
    assert_eq!(TaskListHint::after_follow_up(&w), None);
}

#[test]
fn index_resolution_by_id() {
    let tasks = vec![
        task(5, "a", TraeTaskStatus::Running, 0),
        task(3, "b", TraeTaskStatus::Running, 1),
    ];
    assert_eq!(index_of_task_id(&tasks, 3), Some(1));
    assert_eq!(index_of_task_id(&tasks, 5), Some(0));
    assert_eq!(index_of_task_id(&tasks, 4), None);
    assert_eq!(task_by_index(&tasks, 1).unwrap().task_id, 3);
    assert!(task_by_index(&tasks, 2).is_none());
}

#[test]
fn reconcile_duplicate_titles_keep_positions() {
    let previous = vec![
        task(1, "Build website", TraeTaskStatus::Running, 0),
        task(2, "Build website", TraeTaskStatus::WaitingForHITL, 1),
    ];
    assert_eq!(reconcile_task_snapshots(&previous, 2, None), vec![Some(0), Some(1)]);
}

#[test]
fn reconcile_shrinking_list_without_hint_is_stable() {
    let previous = vec![
        task(1, "a", TraeTaskStatus::Running, 0),
        task(2, "b", TraeTaskStatus::Running, 1),
        task(3, "c", TraeTaskStatus::Running, 2),
    ];
    assert_eq!(reconcile_task_snapshots(&previous, 2, None), vec![Some(0), Some(1)]);
    assert_eq!(reconcile_task_snapshots(&previous, 0, None), Vec::<Option<usize>>::new());
}

#[test]
fn reconcile_new_task_hint_when_list_did_not_grow() {
    let previous = vec![
        task(1, "a", TraeTaskStatus::Running, 0),
        task(2, "b", TraeTaskStatus::Running, 1),
    ];
    assert_eq!(
        reconcile_task_snapshots(&previous, 2, Some(TaskListHint::NewTaskAtFront)),
        vec![None, Some(0)]
    );
    assert_eq!(
        reconcile_task_snapshots(&previous, 4, Some(TaskListHint::NewTaskAtFront)),
        vec![None, Some(0), Some(1), None]
    );
}

#[test]
fn reconcile_move_hint_for_unknown_task_falls_back_to_stable_order() {
    let previous = vec![
        task(1, "a", TraeTaskStatus::Finished, 0),
        task(2, "b", TraeTaskStatus::Finished, 1),
    ];
    assert_eq!(
        reconcile_task_snapshots(&previous, 3, Some(TaskListHint::MoveTaskToFront { task_id: 77 })),
        vec![None, Some(0), Some(1)]
    );
    assert_eq!(
        reconcile_task_snapshots(&previous, 2, Some(TaskListHint::MoveTaskToFront { task_id: 2 })),
        vec![Some(1), Some(0)]
    );
}

#[test]
fn rows_get_kept_and_fresh_ids() {
    let previous = vec![
        task(11, "A", TraeTaskStatus::Running, 0),
        task(12, "B", TraeTaskStatus::WaitingForHITL, 1),
    ];
    let rows = vec![
        row("New", TraeTaskStatus::Running),
        row("A", TraeTaskStatus::Running),
        row("B", TraeTaskStatus::Finished),
    ];
    let origins = vec![None, Some(0), Some(1)];
    let (tasks, next) = tasks_from_rows(&previous, &origins, &rows, 40);
    assert_eq!(next, 41);
    assert_eq!(tasks.iter().map(|t| t.task_id).collect::<Vec<_>>(), vec![40, 11, 12]);
    assert_eq!(tasks.iter().map(|t| t.index).collect::<Vec<_>>(), vec![0, 1, 2]);
    assert_eq!(tasks[2].status, TraeTaskStatus::Finished);
    assert_eq!(tasks[0].title, "New");
}

#[test]
fn diff_of_unchanged_list_is_empty() {
    let tasks = vec![
        task(1, "a", TraeTaskStatus::Finished, 0),
        task(2, "a", TraeTaskStatus::WaitingForHITL, 1),
    ];
    assert!(diff_task_status_changes(&tasks, &tasks).is_empty());
}

#[test]
fn diff_ignores_new_running_tasks_and_uses_last_duplicate_id() {
    let previous = vec![
        task(1, "a", TraeTaskStatus::Running, 0),
        task(1, "a", TraeTaskStatus::Finished, 1),
    ];
    let latest = vec![task(1, "a", TraeTaskStatus::Finished, 0), task(2, "b", TraeTaskStatus::Running, 1)];
    assert!(diff_task_status_changes(&previous, &latest).is_empty());
    let latest = vec![task(1, "a", TraeTaskStatus::Running, 0), task(3, "c", TraeTaskStatus::Finished, 1)];
    let events = diff_task_status_changes(&previous, &latest);
    assert_eq!(events.len(), 2);
    assert_eq!(events[0].previous_status, Some(TraeTaskStatus::Finished));
    assert_eq!(events[1].task_id(), 3);
    assert_eq!(events[1].previous_status, None);
}

#[test]
fn retry_increments_attempts_until_the_limit() {
    let latest = vec![task(4, "x", TraeTaskStatus::Interrupted, 0)];
    let mut pending = HashMap::from([(
        4,
        PendingUiActionRetry { status: TraeTaskStatus::Interrupted, attempts: 2, warned: false },
    )]);
    let (events, warned) = collect_pending_retry_events(&latest, &mut pending, 3);
    assert_eq!(events.len(), 1);
    assert!(warned.is_empty());
    assert_eq!(pending.get(&4).unwrap().attempts, 3);
    let (events, warned) = collect_pending_retry_events(&latest, &mut pending, 3);
    assert!(events.is_empty());
    assert_eq!(warned.len(), 1);
    assert!(pending.get(&4).unwrap().warned);
}

#[test]
fn retry_drops_entries_of_vanished_tasks() {
    let latest = vec![task(1, "x", TraeTaskStatus::WaitingForHITL, 0)];
    let mut pending = HashMap::from([(
        9,
        PendingUiActionRetry { status: TraeTaskStatus::WaitingForHITL, attempts: 1, warned: false },
    )]);
    let (events, warned) = collect_pending_retry_events(&latest, &mut pending, 3);
    assert!(events.is_empty() && warned.is_empty() && pending.is_empty());
}

#[test]
fn tracker_bootstrap_assigns_ids_and_follows_policy() {
    let mut tracker = TaskTracker::new(3);
    let rows = vec![
        row("a", TraeTaskStatus::Finished),
        row("b", TraeTaskStatus::WaitingForHITL),
        row("c", TraeTaskStatus::Running),
    ];
    let events = tracker.bootstrap(&rows, InitialTaskPolicy::EmitTerminalAndWaiting);
    assert_eq!(events.len(), 1);
    assert_eq!(events[0].task.title, "b");
    assert_eq!(events[0].previous_status, None);
    let cached = tracker.cached_tasks();
    assert_eq!(cached.iter().map(|t| t.task_id).collect::<Vec<_>>(), vec![0, 1, 2]);
    assert_eq!(tracker.index_of(2), Some(2));
}

#[test]
fn tracker_keeps_identity_of_task_moved_by_follow_up() {
    let mut tracker = TaskTracker::new(3);
    let rows = vec![
        row("Build website", TraeTaskStatus::Finished),
        row("Build website", TraeTaskStatus::Finished),
        row("Other task", TraeTaskStatus::Running),
    ];
    tracker.bootstrap(&rows, InitialTaskPolicy::Ignore);
    tracker.note_follow_up_sent(1);
    let rows = vec![
        row("Build website", TraeTaskStatus::Running),
        row("Build website", TraeTaskStatus::Finished),
        row("Other task", TraeTaskStatus::Running),
    ];
    let (events, warned) = tracker.refresh_with_events(&rows);
    assert!(warned.is_empty());
    assert_eq!(events.len(), 1);
    assert_eq!(events[0].task_id(), 1);
    assert_eq!(events[0].previous_status, Some(TraeTaskStatus::Finished));
    assert_eq!(events[0].current_status(), TraeTaskStatus::Running);
    let ids: Vec<u64> = tracker.cached_tasks().iter().map(|t| t.task_id).collect();
    assert_eq!(ids, vec![1, 0, 2]);
}

#[test]
fn tracker_new_task_hint_gives_a_fresh_id() {
    let mut tracker = TaskTracker::new(3);
    tracker.bootstrap(&[row("a", TraeTaskStatus::Running)], InitialTaskPolicy::Ignore);
    tracker.set_task_list_hint(TaskListHint::NewTaskAtFront);
    let tasks = tracker.refresh_tasks(&[
        row("new", TraeTaskStatus::Running),
        row("a", TraeTaskStatus::Running),
    ]);
    assert_eq!(tasks.iter().map(|t| t.task_id).collect::<Vec<_>>(), vec![1, 0]);
}

#[test]
fn tracker_retries_a_stuck_task_then_warns_once() {
    let mut tracker = TaskTracker::new(2);
    let rows = vec![row("stuck", TraeTaskStatus::WaitingForHITL)];
    let events = tracker.bootstrap(&rows, InitialTaskPolicy::EmitTerminalAndWaiting);
    assert_eq!(events.len(), 1);
    tracker.note_dispatched(&events[0]);
    let (events, warned) = tracker.refresh_with_events(&rows);
    assert_eq!(events.len(), 1);
    assert_eq!(events[0].previous_status, Some(TraeTaskStatus::WaitingForHITL));
    assert!(warned.is_empty());
    tracker.note_dispatched(&events[0]);
    let (events, warned) = tracker.refresh_with_events(&rows);
    assert!(events.is_empty());
    assert_eq!(warned.len(), 1);
    let (events, warned) = tracker.refresh_with_events(&rows);
    assert!(events.is_empty() && warned.is_empty());
    let (events, _) = tracker.refresh_with_events(&[row("stuck", TraeTaskStatus::Running)]);
    assert_eq!(events.len(), 1);
    assert_eq!(events[0].previous_status, Some(TraeTaskStatus::WaitingForHITL));
}

#[test]
fn text_helpers() {
    assert_eq!(trimmed("\u{3000} a b\t\n"), "a b");
    assert_eq!(trimmed(""), "");
    assert!(blank(" \u{a0}\r\n"));
    assert!(!blank(" x "));
    assert!(char_is_white_space('\u{2028}'));
    assert!(!char_is_white_space('\u{200b}'));
    assert!(contains_str("abcabd", "abd"));
    assert!(!contains_str("abcab", "abd"));
    assert!(contains_str("abc", ""));
    assert!(str_equal("\u{4efb}\u{52a1}", "\u{4efb}\u{52a1}"));
    assert!(!str_equal("ab", "abc"));
}

#[test]
fn cdp_directory_normalization() {
    assert_eq!(normalize_cdp_dir(r"C:\Program Files\Trae"), "c:/Program Files/Trae");
    assert_eq!(normalize_cdp_dir(r"\\server\share"), "//server/share");
    assert_eq!(normalize_cdp_dir("Ä:x"), "Ä:x");
    assert_eq!(normalize_cdp_dir("D"), "D");
    assert_eq!(
        normalize_executable_path_for_cdp("C:/Program Files/Trae/Trae.exe"),
        Some("c:/Program Files/Trae".to_string())
    );
    assert_eq!(normalize_executable_path_for_cdp(""), None);
    assert_eq!(normalize_executable_path_for_cdp("/"), None);
}

#[test]
fn config_defaults() {
    assert_eq!(default_model_name(), "gpt-5-mini");
    assert_eq!(default_log_directory(), "logs");
    assert_eq!(default_log_level(), "info");
    let m = ModelConfig::default();
    assert!(m.api_key.is_empty() && m.base_url.is_empty());
    assert!(config_write_allowed(false, false));
    assert!(!config_write_allowed(true, false));
    assert!(config_write_allowed(true, true));
}

#[test]
fn config_report_lists_every_problem_in_order() {
    let mut config = sample_config();
    config.trae_executable_path = "  ".to_string();
    config.max_concurrent_task = 0;
    config.logging.level = " ".to_string();
    let err = validate_config(&config).unwrap_err();
    assert_eq!(
        err.to_string(),
        "invalid config:\n- trae_executable_path cannot be empty\n- max_concurrent_task must be greater than or equal to 1\n- logging.level cannot be empty"
    );
}

#[test]
fn config_level_check_result_is_reported() {
    let config = sample_config();
    let err = validate_config_with_level_check(&config, Err("bad".to_string())).unwrap_err();
    assert_eq!(err.problems, vec!["logging.level must be a valid tracing filter: bad".to_string()]);
    assert!(validate_config_with_level_check(&config, Ok(())).is_ok());
    let mut llm = sample_config();
    llm.command_strategy = CommandStrategy::LLM;
    llm.model.model_name = " ".to_string();
    assert!(validate_config(&llm).is_err());
    llm.model.model_name = "m".to_string();
    assert!(validate_config(&llm).is_ok());
    let mut spaced = sample_config();
    spaced.logging.level = " debug ".to_string();
    assert!(validate_config(&spaced).is_ok());
    spaced.logging.level = "[".to_string();
    let err = validate_config(&spaced).unwrap_err();
    assert_eq!(err.problems.len(), 1);
    assert!(err.problems[0].len() > "logging.level must be a valid tracing filter: ".len());
}

#[test]
fn custom_action_example_name() {
    assert_eq!(CustomActionExample.name(), "custom_action_example");
}

#[test]
fn runner_workflow_steps() {
    let workflow: TaskWorkflow<u8> = gothic::trae::build_task_workflow();
    assert_eq!(workflow.on_finished.steps.len(), 6);
    assert!(matches!(workflow.on_finished.steps[0], ActionOp::NewTask));
    assert!(matches!(&workflow.on_finished.steps[3], ActionOp::TypeText(t) if t == "Create new task"));
    assert!(matches!(workflow.on_finished.steps[5], ActionOp::PressEnter));
    assert!(matches!(&workflow.on_interrupted.steps[3], ActionOp::TypeText(t) if t == "\u{7EE7}\u{7EED}"));
    assert!(matches!(workflow.on_interrupted.steps[0], ActionOp::FocusTask));
    assert_eq!(workflow.on_waiting_for_hitl.steps.len(), 3);
    assert!(matches!(workflow.on_waiting_for_hitl.steps[2], ActionOp::HandleHumanInLoop));
}

#[test]
fn log_lines() {
    let event = TaskStatusChangeEvent {
        task: task(1, "Build", TraeTaskStatus::Finished, 0),
        previous_status: Some(TraeTaskStatus::Running),
    };
    assert_eq!(event.describe(), "Task event: [Build] Running -> Finished");
    let initial = TaskStatusChangeEvent { previous_status: None, ..event.clone() };
    assert_eq!(initial.describe(), "Task event: [Build] Initial -> Finished");
    assert_eq!(CommandDecision::Allow.log_line("rm -rf x"), "Allowed Command: rm -rf x");
    assert_eq!(CommandDecision::Reject.log_line("ls"), "Rejected Command: ls");
}

#[test]
fn workbench_target_matching() {
    let url = gothic::utils::workbench_url("c:/Program Files/Trae");
    assert_eq!(
        url,
        "vscode-file://vscode-app/c:/Program Files/Trae/resources/app/out/vs/code/electron-browser/workbench/workbench.html"
    );
    assert!(gothic::utils::is_workbench_target(&format!("{url}?x=1"), "c:/Program Files/Trae"));
    assert!(!gothic::utils::is_workbench_target(&url, "c:/Program Files/Other"));
}

#[test]
fn command_strategy_decisions() {
    assert_eq!(CommandStrategy::Allow.decision(), Some(CommandDecision::Allow));
    assert_eq!(CommandStrategy::Deny.decision(), Some(CommandDecision::Reject));
    assert_eq!(CommandStrategy::LLM.decision(), None);
}

#[test]
fn cdp_directory_of_documented_parent_shapes() {
    assert_eq!(normalize_executable_path_for_cdp("Trae.exe"), Some(String::new()));
    assert_eq!(normalize_executable_path_for_cdp("Trae/Trae.exe"), Some("Trae".to_string()));
    assert_eq!(normalize_executable_path_for_cdp("/Trae.exe"), Some("/".to_string()));
}

#[test]
fn filter_parser_panics_on_cuts_inside_characters() {
    assert!(filter_parser_would_panic("info, \u{e9}\u{e9}=x"));
    assert!(filter_parser_would_panic("info,\u{3000}x=info"));
    assert!(filter_parser_would_panic(" \u{e9}=info"));
    assert!(filter_parser_would_panic(" [\u{e9}]"));
    assert!(filter_parser_would_panic("\u{3000}\u{e9}=x"));
    assert!(!filter_parser_would_panic("info, \u{e9}"));
    assert!(!filter_parser_would_panic(" \u{e9}"));
    assert!(!filter_parser_would_panic(" x\u{e9}"));
    assert!(!filter_parser_would_panic("info,\u{e9}\u{e9}=x"));
    assert!(!filter_parser_would_panic("info, target=debug"));
    assert!(!filter_parser_would_panic("\u{e9}, x=info"));
    assert!(!filter_parser_would_panic("bogus=xyz, \u{e9}=info"));
    assert!(!filter_parser_would_panic("!x, \u{e9}=info"));
    assert!(!filter_parser_would_panic(" x=\u{e9}"));
    assert!(!filter_parser_would_panic(""));
    assert!(filter_parser_would_panic("    [{a=\u{e9}\u{e9}}]=x"));
    assert!(!filter_parser_would_panic("    [{a=(\u{e9}\u{e9}}]=x"));
    assert!(log_level_panics_filter_parser("  info, \u{e9}=x  "));
    assert!(!log_level_panics_filter_parser(" \u{e9}=info "));
}

#[test]
fn directive_outcomes_follow_the_parser() {
    let d = " \u{e9}=info";
    assert_eq!(directive_outcome_at(d, 0, 7), DirectiveOutcome::Panics);
    let d = "x=info";
    assert_eq!(directive_outcome_at(d, 0, 6), DirectiveOutcome::Parsed);
    let d = "x=loud";
    assert_eq!(directive_outcome_at(d, 0, 6), DirectiveOutcome::Rejected);
    let d = "x=+05";
    assert_eq!(directive_outcome_at(d, 0, 5), DirectiveOutcome::Parsed);
    let d = "x=6";
    assert_eq!(directive_outcome_at(d, 0, 3), DirectiveOutcome::Rejected);
    let d = "x=WaRn";
    assert_eq!(directive_outcome_at(d, 0, 6), DirectiveOutcome::Parsed);
    let d = "[span{}]";
    assert_eq!(directive_outcome_at(d, 0, 8), DirectiveOutcome::Rejected);
    let d = "[span{a}]=debug";
    assert_eq!(directive_outcome_at(d, 0, 15), DirectiveOutcome::Parsed);
    let d = "!x";
    assert_eq!(directive_outcome_at(d, 0, 2), DirectiveOutcome::Rejected);
}

#[test]
fn inputs_marked_safe_agree_with_the_parser() {
    let safe = [
        "info, \u{e9}",
        " \u{e9}",
        " x\u{e9}",
        "info,\u{e9}\u{e9}=x",
        "info, target=debug",
        "\u{e9}, x=info",
        "bogus=xyz, \u{e9}=info",
        "!x, \u{e9}=info",
        " x=\u{e9}",
        "x=+05",
        "[span{a}]=debug",
        "    [{a=(\u{e9}\u{e9}}]=x",
        "[{a=(}], \u{e9}=x",
    ];
    for s in safe {
        assert!(!filter_parser_would_panic(s));
        let _ = tracing_subscriber::EnvFilter::try_new(s);
    }
    assert!(tracing_subscriber::EnvFilter::try_new("info, \u{e9}").is_ok());
    assert!(tracing_subscriber::EnvFilter::try_new("bogus=xyz, \u{e9}=info").is_err());
    assert!(tracing_subscriber::EnvFilter::try_new("x=+05").is_ok());
    assert!(tracing_subscriber::EnvFilter::try_new("info, target=debug").is_err());
    assert!(tracing_subscriber::EnvFilter::try_new("    [{a=(\u{e9}\u{e9}}]=x").is_err());
    assert!(tracing_subscriber::EnvFilter::try_new("[{a=(}], \u{e9}=x").is_err());
}

#[test]
fn validation_runs_on_levels_the_parser_reads() {
    let mut config = sample_config();
    config.logging.level = "info, \u{e9}".to_string();
    assert!(validate_config(&config).is_ok());
    config.logging.level = "info, \u{e9}=x".to_string();
    assert!(validate_config_checked(&config).is_none());
    config.logging.level = "debug".to_string();
    assert!(matches!(validate_config_checked(&config), Some(Ok(()))));
}

#[test]
fn human_in_loop_answers_follow_the_strategies() {
    assert_eq!(
        human_in_loop_action(PendingCard::Command, CommandStrategy::Allow, QuestionStrategy::Auto),
        HumanInLoopAction::AnswerCommand(CommandDecision::Allow)
    );
    assert_eq!(
        human_in_loop_action(PendingCard::Command, CommandStrategy::Deny, QuestionStrategy::Skip),
        HumanInLoopAction::AnswerCommand(CommandDecision::Reject)
    );
    assert_eq!(
        human_in_loop_action(PendingCard::Command, CommandStrategy::LLM, QuestionStrategy::Skip),
        HumanInLoopAction::NotAutomated
    );
    assert_eq!(
        human_in_loop_action(PendingCard::Question, CommandStrategy::Allow, QuestionStrategy::Skip),
        HumanInLoopAction::CancelQuestion
    );
    assert_eq!(
        human_in_loop_action(PendingCard::Question, CommandStrategy::Allow, QuestionStrategy::Auto),
        HumanInLoopAction::PickFirstOption
    );
    assert_eq!(
        human_in_loop_action(PendingCard::Question, CommandStrategy::Allow, QuestionStrategy::LLM),
        HumanInLoopAction::NotAutomated
    );
}

#[test]
fn last_matching_workbench_target_is_picked() {
    let dir = "c:/Trae";
    let main = gothic::utils::workbench_url(dir);
    let urls = vec![main.clone(), "about:blank".to_string(), format!("{main}#2"), "x".to_string()];
    assert_eq!(gothic::utils::last_workbench_target(&urls, dir), Some(2));
    assert_eq!(gothic::utils::last_workbench_target(&urls[3..], dir), None);
}

#[test]
fn reconciled_view_leaves_the_cache_alone() {
    let mut tracker = TaskTracker::new(3);
    tracker.bootstrap(&[row("a", TraeTaskStatus::Running)], InitialTaskPolicy::Ignore);
    tracker.set_task_list_hint(TaskListHint::NewTaskAtFront);
    let rows = vec![row("new", TraeTaskStatus::Running), row("a", TraeTaskStatus::Running)];
    let view = tracker.reconciled_view(&rows);
    assert_eq!(view.iter().map(|t| t.task_id).collect::<Vec<_>>(), vec![1, 0]);
    assert_eq!(tracker.cached_tasks().len(), 1);
    assert_eq!(tracker.next_task_id(), 1);
    let stored = tracker.refresh_tasks(&rows);
    assert_eq!(stored.iter().map(|t| t.task_id).collect::<Vec<_>>(), vec![1, 0]);
}

#[test]
fn drive_paths_keep_their_directory() {
    assert_eq!(normalize_executable_path_for_cdp("C:/x/y.exe"), Some("c:/x".to_string()));
    assert_eq!(CustomActionExample.greeting(), "Hello, world");
}

#[test]
fn chain_steps_map_to_calls_by_task_id() {
    let chain: ActionChain<()> = ActionChain::new()
        .then_step(ActionOp::NewTask)
        .then_step(ActionOp::FocusTask)
        .then_step(ActionOp::FocusChatInput)
        .then_step(ActionOp::ClearChatInput)
        .then_step(ActionOp::TypeText("hi".to_string()))
        .then_step(ActionOp::PressEnter)
        .then_step(ActionOp::WaitForSelector { selector: "#x".to_string(), timeout_ms: 50 })
        .then_step(ActionOp::SleepMs(10))
        .then_step(ActionOp::HandleHumanInLoop)
        .then_step(ActionOp::Custom(()));
    let calls = chain_calls(&chain, 7);
    assert_eq!(
        calls,
        vec![
            StepCall::CreateTask,
            StepCall::FocusTask { task_id: 7 },
            StepCall::FocusChatInput,
            StepCall::ClearChatInput,
            StepCall::TypeText { text: "hi".to_string() },
            StepCall::SendById { task_id: 7 },
            StepCall::WaitForSelector { selector: "#x".to_string(), timeout_ms: 50 },
            StepCall::Sleep { ms: 10 },
            StepCall::HandleHumanInLoop { task_id: 7 },
            StepCall::Custom,
        ]
    );
    assert_eq!(step_call(&ActionOp::<()>::AllowCommand, 3), StepCall::AllowCommand { task_id: 3 });
    assert_eq!(step_call(&ActionOp::<()>::RejectCommand, 3), StepCall::RejectCommand { task_id: 3 });
    assert_eq!(
        step_call(&ActionOp::<()>::ClickSelector("a.b".to_string()), 3),
        StepCall::ClickSelector { selector: "a.b".to_string() }
    );
    assert_eq!(
        step_call(&ActionOp::<()>::ClickButtonByText("Run".to_string()), 3),
        StepCall::ClickButtonByText { text: "Run".to_string() }
    );
}

#[test]
fn solo_layout_is_needed_for_tasks() {
    assert_eq!(check_solo_mode(TraeEditorMode::SOLO, SoloAction::GetTasks), Ok(()));
    assert_eq!(check_solo_mode(TraeEditorMode::SOLO, SoloAction::CreateTask), Ok(()));
    let refusal = check_solo_mode(TraeEditorMode::IDE, SoloAction::GetTasks).unwrap_err();
    assert_eq!(refusal, ModeRefusal::NotSolo(SoloAction::GetTasks));
    assert_eq!(refusal.message(), "Cannot get tasks under IDE mode, please switch to SOLO mode.");
    let refusal = check_solo_mode(TraeEditorMode::IDE, SoloAction::CreateTask).unwrap_err();
    assert_eq!(
        refusal.message(),
        "Cannot create task under IDE mode, please switch to SOLO mode first."
    );
}

#[test]
fn short_filters_marked_safe_never_panic_the_parser() {
    let alphabet = [' ', '\u{e9}', '\u{3000}', '=', '[', ']', '{', '}', 'a', ',', '('];
    let mut inputs: Vec<String> = vec![String::new()];
    let mut frontier: Vec<String> = vec![String::new()];
    for _ in 0..4 {
        let mut next = Vec::new();
        for s in &frontier {
            for c in alphabet {
                let mut t = s.clone();
                t.push(c);
                next.push(t);
            }
        }
        inputs.extend(next.iter().cloned());
        frontier = next;
    }
    let mut marked = 0;
    for s in &inputs {
        if filter_parser_would_panic(s) {
            marked += 1;
        } else {
            let _ = tracing_subscriber::EnvFilter::try_new(s);
        }
    }
    assert!(marked > 0);
}

#[test]
fn backslash_drive_paths_have_a_directory() {
    assert!(normalize_executable_path_for_cdp("C:\\Program Files\\Trae\\Trae.exe").is_some());
    assert!(normalize_executable_path_for_cdp("d:\\Trae.exe").is_some());
}

#[test]
fn diff_ignores_order_and_titles_of_previous() {
    let previous = vec![
        task(1, "a", Running, 0),
        task(2, "b", Finished, 1),
        task(3, "c", WaitingForHITL, 2),
    ];
    let reordered = vec![
        task(3, "renamed", WaitingForHITL, 0),
        task(1, "x", Running, 1),
        task(2, "b", Finished, 2),
    ];
    let latest = vec![
        task(4, "new", Finished, 0),
        task(1, "a", Finished, 1),
        task(2, "b", Finished, 2),
        task(3, "c", Running, 3),
    ];
    let expected = diff_task_status_changes(&previous, &latest);
    assert_eq!(expected.len(), 3);
    assert_eq!(diff_task_status_changes(&reordered, &latest), expected);
}
