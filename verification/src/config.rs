//! The configuration of a run, its defaults, and its validation.

use vstd::prelude::*;
use crate::filter::{filter_parser_panics, filter_parser_would_panic};
use crate::text::{blank, is_blank, trim, trimmed};

verus! {

pub fn default_model_name() -> (r: String)
    ensures
        r@ == "gpt-5-mini"@,
{
    String::from_str("gpt-5-mini")
}

pub fn default_log_directory() -> (r: String)
    ensures
        r@ == "logs"@,
{
    String::from_str("logs")
}

pub fn default_log_level() -> (r: String)
    ensures
        r@ == "info"@,
{
    String::from_str("info")
}

/// The model used for the `llm` strategies.
#[derive(Debug, Clone)]
pub struct ModelConfig {
    pub api_key: String,
    pub base_url: String,
    pub model_name: String,
}

impl Default for ModelConfig {
    fn default() -> (r: Self)
        ensures
            r.api_key@ == Seq::<char>::empty(),
            r.base_url@ == Seq::<char>::empty(),
            r.model_name@ == "gpt-5-mini"@,
    {
        ModelConfig {
            api_key: String::new(),
            base_url: String::new(),
            model_name: default_model_name(),
        }
    }
}

/// Where logs are written and which events they keep.
#[derive(Debug, Clone)]
pub struct LoggingConfig {
    pub directory: String,
    pub level: String,
}

impl Default for LoggingConfig {
    fn default() -> (r: Self)
        ensures
            r.directory@ == "logs"@,
            r.level@ == "info"@,
    {
        LoggingConfig { directory: default_log_directory(), level: default_log_level() }
    }
}

/// How a command that waits for approval is answered.
#[derive(PartialEq, Eq, Structural, Debug, Clone, Copy)]
pub enum CommandStrategy {
    Allow,
    Deny,
    LLM,
}

/// How a question asked by the agent is answered.
#[derive(PartialEq, Eq, Structural, Debug, Clone, Copy)]
pub enum QuestionStrategy {
    Skip,
    Auto,
    LLM,
}

impl CommandStrategy {
    /// The answer given to a pending command, when the strategy answers it
    /// without a model.
    pub fn decision(self) -> (r: Option<crate::trae::editor::CommandDecision>)
        ensures
            r == (match self {
                CommandStrategy::Allow => Some(crate::trae::editor::CommandDecision::Allow),
                CommandStrategy::Deny => Some(crate::trae::editor::CommandDecision::Reject),
                CommandStrategy::LLM => None,
            }),
    {
        match self {
            CommandStrategy::Allow => Some(crate::trae::editor::CommandDecision::Allow),
            CommandStrategy::Deny => Some(crate::trae::editor::CommandDecision::Reject),
            CommandStrategy::LLM => None,
        }
    }
}

pub fn default_command_strategy() -> (r: CommandStrategy)
    ensures
        r == CommandStrategy::Allow,
{
    CommandStrategy::Allow
}

pub fn default_question_strategy() -> (r: QuestionStrategy)
    ensures
        r == QuestionStrategy::Auto,
{
    QuestionStrategy::Auto
}

pub fn default_max_concurrent_task() -> (r: u32)
    ensures
        r == 5,
{
    5
}

pub fn default_max_task_action_retry() -> (r: u32)
    ensures
        r == 3,
{
    3
}

pub fn default_task_poll_interval_ms() -> (r: u64)
    ensures
        r == 2000,
{
    2000
}

/// The configuration of a run.
#[derive(Debug, Clone)]
pub struct Config {
    pub trae_executable_path: String,
    pub command_strategy: CommandStrategy,
    pub question_strategy: QuestionStrategy,
    pub model: ModelConfig,
    pub logging: LoggingConfig,
    pub max_concurrent_task: u32,
    /// Actions on a task stuck in Interrupted or WaitingForHITL are tried this
    /// many times before a warning is printed.
    pub max_task_action_retry: u32,
    /// Poll interval of the sidebar task list.
    pub task_poll_interval_ms: u64,
}

/// What a tracing filter parser reports for `directives`: `None` when they are
/// a valid filter, else the text of the parse error.
pub uninterp spec fn env_filter_parse_error(directives: Seq<char>) -> Option<Seq<char>>;

/// Whether the tracing filter parser panics on the trimmed `level`
/// (`filter_parser_panics`); `validate_config` is not run on such a level.
pub fn log_level_panics_filter_parser(level: &str) -> (r: bool)
    ensures
        r == filter_parser_panics(trim(level@)),
{
    let trimmed_level = trimmed(level);
    filter_parser_would_panic(trimmed_level.as_str())
}

/// Parses `directives` with `tracing_subscriber::EnvFilter::try_new`; the
/// outcome, and the error text, are the named result of that parse. The
/// parser panics when it cuts a directive inside a multi-byte character
/// (`filter_parser_panics`); those inputs are left out.
#[verifier::external_body]
pub(crate) fn env_filter_check(directives: &str) -> (r: Result<(), String>)
    requires
        !filter_parser_panics(directives@),
    ensures
        match r {
            Ok(()) => env_filter_parse_error(directives@) is None,
            Err(message) => env_filter_parse_error(directives@) == Some(message@),
        },
{
    match tracing_subscriber::EnvFilter::try_new(directives) {
        Ok(_) => Ok(()),
        Err(err) => Err(err.to_string()),
    }
}

/// `message` as a one-item list when `bad`, else nothing.
pub open spec fn problem_if(bad: bool, message: Seq<char>) -> Seq<Seq<char>> {
    if bad {
        seq![message]
    } else {
        Seq::empty()
    }
}

/// Whether an `llm` strategy is configured for commands or questions.
pub open spec fn uses_llm(config: Config) -> bool {
    config.command_strategy == CommandStrategy::LLM || config.question_strategy
        == QuestionStrategy::LLM
}

/// The problems of `config`, in a fixed order. `level_error` is what the
/// tracing filter parser reports for the trimmed log level; it only matters
/// when the level is not blank.
pub open spec fn config_problems(config: Config, level_error: Option<Seq<char>>) -> Seq<Seq<char>> {
    problem_if(
        is_blank(config.trae_executable_path@),
        "trae_executable_path cannot be empty"@,
    ) + problem_if(
        config.max_concurrent_task < 1,
        "max_concurrent_task must be greater than or equal to 1"@,
    ) + problem_if(
        config.max_task_action_retry < 1,
        "max_task_action_retry must be greater than or equal to 1"@,
    ) + problem_if(
        config.task_poll_interval_ms < 100,
        "task_poll_interval_ms must be greater than or equal to 100"@,
    ) + problem_if(is_blank(config.logging.directory@), "logging.directory cannot be empty"@) + (
    if is_blank(config.logging.level@) {
        seq!["logging.level cannot be empty"@]
    } else {
        match level_error {
            Some(e) => seq!["logging.level must be a valid tracing filter: "@ + e],
            None => Seq::empty(),
        }
    }) + problem_if(
        uses_llm(config) && is_blank(config.model.model_name@),
        "model.model_name cannot be empty when command_strategy or question_strategy is \"llm\""@,
    )
}

/// `config` with `model_name` in place of its model name.
pub open spec fn with_model_name(config: Config, model_name: String) -> Config {
    Config { model: ModelConfig { model_name, ..config.model }, ..config }
}

/// The model name matters only for an `llm` strategy. With no `llm` strategy
/// the problems do not depend on the model name, so a configuration that is
/// valid otherwise is accepted whatever its model name. With an `llm`
/// strategy, a blank model name adds exactly one problem, at the end, to those
/// of the same configuration with a non-blank name.
pub proof fn lemma_model_name_matters_only_for_llm(
    config: Config,
    other_name: String,
    level_error: Option<Seq<char>>,
)
    ensures
        config.command_strategy != CommandStrategy::LLM && config.question_strategy
            != QuestionStrategy::LLM ==> config_problems(
            with_model_name(config, other_name),
            level_error,
        ) == config_problems(config, level_error),
        (config.command_strategy == CommandStrategy::LLM || config.question_strategy
            == QuestionStrategy::LLM) && is_blank(config.model.model_name@) && !is_blank(
            other_name@,
        ) ==> config_problems(config, level_error) == config_problems(
            with_model_name(config, other_name),
            level_error,
        ).push(
            "model.model_name cannot be empty when command_strategy or question_strategy is \"llm\""@,
        ),
{
    let other = with_model_name(config, other_name);
    let m = "model.model_name cannot be empty when command_strategy or question_strategy is \"llm\""@;
    if uses_llm(config) && is_blank(config.model.model_name@) && !is_blank(other_name@) {
        assert(config_problems(config, level_error) =~= config_problems(other, level_error).push(
            m,
        ));
    }
    if !uses_llm(config) {
        assert(config_problems(other, level_error) =~= config_problems(config, level_error));
    }
}

/// `parts` joined by `separator`.
pub open spec fn join(parts: Seq<Seq<char>>, separator: Seq<char>) -> Seq<char>
    decreases parts.len(),
{
    if parts.len() == 0 {
        Seq::empty()
    } else if parts.len() == 1 {
        parts[0]
    } else {
        join(parts.drop_last(), separator) + separator + parts.last()
    }
}

/// The views of a list of strings.
pub open spec fn string_views(strings: Seq<String>) -> Seq<Seq<char>> {
    strings.map_values(|s: String| s@)
}

/// A configuration that does not pass validation, with every problem found.
#[derive(Debug, Clone)]
pub struct ConfigError {
    pub problems: Vec<String>,
}

impl ConfigError {
    /// The report: a header line, then one line per problem.
    pub open spec fn spec_report(self) -> Seq<char> {
        "invalid config:\n- "@ + join(string_views(self.problems@), "\n- "@)
    }

    pub fn to_string(&self) -> (r: String)
        ensures
            r@ == self.spec_report(),
    {
        let mut out = String::from_str("invalid config:\n- ");
        let n = self.problems.len();
        let mut i: usize = 0;
        while i < n
            invariant
                n == self.problems@.len(),
                i <= n,
                out@ == "invalid config:\n- "@ + join(
                    string_views(self.problems@.take(i as int)),
                    "\n- "@,
                ),
            decreases n - i,
        {
            let ghost before = string_views(self.problems@.take(i as int));
            proof {
                let after = string_views(self.problems@.take(i + 1));
                assert(after.drop_last() =~= before);
                assert(after.last() == self.problems@[i as int]@);
            }
            if i > 0 {
                out.append("\n- ");
            }
            out.append(self.problems[i].as_str());
            proof {
                let after = string_views(self.problems@.take(i + 1));
                if i == 0 {
                    assert(before =~= Seq::<Seq<char>>::empty());
                    assert(join(after, "\n- "@) == after[0]);
                }
                assert(out@ =~= "invalid config:\n- "@ + join(after, "\n- "@));
            }
            i = i + 1;
        }
        assert(self.problems@.take(n as int) =~= self.problems@);
        out
    }
}

fn push_problem(problems: &mut Vec<String>, bad: bool, message: &str)
    ensures
        string_views(final(problems)@) == string_views(old(problems)@) + problem_if(bad, message@),
{
    let ghost before = problems@;
    if bad {
        problems.push(String::from_str(message));
        assert(string_views(problems@) =~= string_views(before) + seq![message@]);
    } else {
        assert(string_views(problems@) =~= string_views(before) + Seq::<Seq<char>>::empty());
    }
}

/// Validation of `config`, given what the tracing filter parser reported for
/// its trimmed log level (`Err` with the error text when it refused it).
pub fn validate_config_with_level_check(config: &Config, level_check: Result<(), String>) -> (r:
    Result<(), ConfigError>)
    ensures
        ({
            let problems = config_problems(
                *config,
                match level_check {
                    Ok(()) => None,
                    Err(e) => Some(e@),
                },
            );
            &&& r is Ok <==> problems.len() == 0
            &&& r matches Err(e) ==> string_views(e.problems@) == problems
        }),
{
    let mut problems: Vec<String> = Vec::new();
    let ghost level_error = match &level_check {
        Ok(()) => None,
        Err(e) => Some(e@),
    };
    assert(string_views(problems@) =~= Seq::<Seq<char>>::empty());
    push_problem(
        &mut problems,
        blank(config.trae_executable_path.as_str()),
        "trae_executable_path cannot be empty",
    );
    push_problem(
        &mut problems,
        config.max_concurrent_task < 1,
        "max_concurrent_task must be greater than or equal to 1",
    );
    push_problem(
        &mut problems,
        config.max_task_action_retry < 1,
        "max_task_action_retry must be greater than or equal to 1",
    );
    push_problem(
        &mut problems,
        config.task_poll_interval_ms < 100,
        "task_poll_interval_ms must be greater than or equal to 100",
    );
    push_problem(
        &mut problems,
        blank(config.logging.directory.as_str()),
        "logging.directory cannot be empty",
    );
    if blank(config.logging.level.as_str()) {
        push_problem(&mut problems, true, "logging.level cannot be empty");
    } else {
        match &level_check {
            Ok(()) => {},
            Err(e) => {
                let ghost before = problems@;
                let message = String::from_str(
                    "logging.level must be a valid tracing filter: ",
                ).concat(e.as_str());
                problems.push(message);
                assert(string_views(problems@) =~= string_views(before) + seq![
                    "logging.level must be a valid tracing filter: "@ + e@,
                ]);
            },
        }
    }
    let uses_llm = matches!(config.command_strategy, CommandStrategy::LLM) || matches!(
        config.question_strategy,
        QuestionStrategy::LLM
    );
    push_problem(
        &mut problems,
        uses_llm && blank(config.model.model_name.as_str()),
        "model.model_name cannot be empty when command_strategy or question_strategy is \"llm\"",
    );
    proof {
        let expected = config_problems(*config, level_error);
        assert(string_views(problems@) =~= expected);
    }
    if problems.len() == 0 {
        Ok(())
    } else {
        Err(ConfigError { problems })
    }
}

/// Validates `config`, collecting every problem. The trimmed log level is
/// checked by the tracing filter parser, which panics on some levels
/// (`filter_parser_panics`); a caller tests for those first with
/// `log_level_panics_filter_parser`, or calls `validate_config_checked`.
pub fn validate_config(config: &Config) -> (r: Result<(), ConfigError>)
    requires
        !filter_parser_panics(trim(config.logging.level@)),
    ensures
        ({
            let problems = config_problems(
                *config,
                env_filter_parse_error(trim(config.logging.level@)),
            );
            &&& r is Ok <==> problems.len() == 0
            &&& r matches Err(e) ==> string_views(e.problems@) == problems
        }),
{
    let level_check = if blank(config.logging.level.as_str()) {
        Ok(())
    } else {
        let level = trimmed(config.logging.level.as_str());
        env_filter_check(level.as_str())
    };
    validate_config_with_level_check(config, level_check)
}

/// Validates `config` as `validate_config` does, unless the tracing filter
/// parser would panic on its trimmed log level: then `None`.
pub fn validate_config_checked(config: &Config) -> (r: Option<Result<(), ConfigError>>)
    ensures
        r is None <==> filter_parser_panics(trim(config.logging.level@)),
        r matches Some(v) ==> ({
            let problems = config_problems(
                *config,
                env_filter_parse_error(trim(config.logging.level@)),
            );
            &&& v is Ok <==> problems.len() == 0
            &&& v matches Err(e) ==> string_views(e.problems@) == problems
        }),
{
    if log_level_panics_filter_parser(config.logging.level.as_str()) {
        None
    } else {
        Some(validate_config(config))
    }
}

/// Whether the default configuration may be written where a file exists (`file_exists`)
/// already: only with `force`.
pub fn config_write_allowed(file_exists: bool, force: bool) -> (r: bool)
    ensures
        r == (!file_exists || force),
{
    !file_exists || force
}

} // verus!
