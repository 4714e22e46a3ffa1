//! The course of a query over files: which step comes next, and what a failure
//! leads to.
//!
//! The steps themselves wait for files and for the query engine. What they give
//! is carried from step to step by the caller.
use vstd::prelude::*;
use vstd::string::*;

verus! {

/// How a query is set up.
#[derive(Clone, Copy, Debug)]
pub struct QuerySettings {
    /// Whether filters are evaluated while files are decoded.
    pub pushdown_filters: bool,
    /// Partitions that are worked on at once.
    pub target_partitions: usize,
    /// Rows in a batch.
    pub batch_size: usize,
    /// The end of the names of the files.
    pub file_extension: &'static str,
    /// Whether statistics of the files are collected.
    pub collect_stat: bool,
}

/// Says how a query is set up.
pub fn query_settings() -> (settings: QuerySettings)
    ensures
        !settings.pushdown_filters,
        settings.target_partitions == 16,
        settings.batch_size == 8192,
        settings.file_extension@ == ".parquet"@,
        settings.collect_stat,
{
    QuerySettings {
        pushdown_filters: false,
        target_partitions: 16,
        batch_size: 8192,
        file_extension: ".parquet",
        collect_stat: true,
    }
}

/// Where something that a query uses comes from.
#[derive(Clone, Copy, Debug, PartialEq, Eq, Structural)]
pub enum Source {
    /// It is shared by all queries.
    Shared,
    /// It was made for this query.
    Own,
}

/// What a query runs in.
#[derive(Clone, Copy, Debug, PartialEq, Eq, Structural)]
pub struct QueryEnvironment {
    /// The memory pool.
    pub memory_pool: Source,
    /// The list of the files of the table.
    pub file_list: Source,
    /// The cache of the metadata of files.
    pub file_metadata: Source,
    /// The cache of the statistics of files.
    pub file_statistics: Source,
}

/// Says what a query runs in, which may bring a memory pool of its own. The list
/// of files is always its own; the caches of what is in files are shared.
pub fn query_environment(has_pool: bool) -> (environment: QueryEnvironment)
    ensures
        environment == (QueryEnvironment {
            memory_pool: if has_pool {
                Source::Own
            } else {
                Source::Shared
            },
            file_list: Source::Own,
            file_metadata: Source::Shared,
            file_statistics: Source::Shared,
        }),
{
    QueryEnvironment {
        memory_pool: if has_pool {
            Source::Own
        } else {
            Source::Shared
        },
        file_list: Source::Own,
        file_metadata: Source::Shared,
        file_statistics: Source::Shared,
    }
}

/// A step of a query.
#[derive(Clone, Copy, Debug, PartialEq, Eq, Structural)]
pub enum QueryStep {
    /// The files of the table are put into a list of their own.
    ListFiles,
    /// The runtime is built, with the query's own memory pool if it has one.
    BuildRuntime,
    /// The session is set up.
    BuildSession,
    /// The schema is read from the files.
    InferSchema,
    /// The table is made.
    CreateTable,
    /// The table gets its name.
    RegisterTable,
    /// The plan is decoded.
    DecodePlan,
    /// The plan is turned into a logical plan.
    PlanLogical,
    /// The logical plan is turned into a data frame.
    ExecuteLogical,
    /// The data frame is turned into a physical plan.
    PlanPhysical,
    /// The stream of results is opened.
    OpenStream,
    /// The stream is handed out, with the work moved to the executor.
    HandOut,
}

/// What follows on a step.
pub enum QueryProgress {
    /// Another step.
    Go(QueryStep),
    /// The end: the stream was handed out.
    Done,
    /// The end: the step failed.
    Failed(QueryFailure),
}

/// What is said of a step that failed.
pub struct QueryFailure {
    /// What goes to the log, if anything.
    pub logged: Option<String>,
    /// The message of the error that stands in for that of the step, if any.
    pub replaced: Option<String>,
}

/// The place of a step in a query.
pub open spec fn place_of(step: QueryStep) -> int {
    match step {
        QueryStep::ListFiles => 0,
        QueryStep::BuildRuntime => 1,
        QueryStep::BuildSession => 2,
        QueryStep::InferSchema => 3,
        QueryStep::CreateTable => 4,
        QueryStep::RegisterTable => 5,
        QueryStep::DecodePlan => 6,
        QueryStep::PlanLogical => 7,
        QueryStep::ExecuteLogical => 8,
        QueryStep::PlanPhysical => 9,
        QueryStep::OpenStream => 10,
        QueryStep::HandOut => 11,
    }
}

/// How many steps there are.
pub open spec fn step_count() -> int {
    12
}

/// What goes to the log before the reason when a step fails. Nothing does for
/// the steps that are not listed.
pub open spec fn log_prefix(step: QueryStep) -> Option<Seq<char>> {
    match step {
        QueryStep::BuildRuntime => Some("Failed to build runtime env: "@),
        QueryStep::InferSchema => Some("Failed to infer schema: "@),
        QueryStep::CreateTable => Some("Failed to create listing table: "@),
        QueryStep::RegisterTable => Some("Failed to register table: "@),
        QueryStep::OpenStream => Some("Failed to create execution stream: "@),
        _ => None,
    }
}

/// `failure` is what is said when a step fails for a reason.
pub open spec fn failure_of(step: QueryStep, reason: Seq<char>, failure: QueryFailure) -> bool {
    &&& match log_prefix(step) {
        Some(prefix) => failure.logged is Some && failure.logged->Some_0@ == prefix + reason,
        None => failure.logged is None,
    }
    &&& if step == QueryStep::DecodePlan {
        failure.replaced is Some && failure.replaced->Some_0@ == "Failed to decode Substrait: "@
            + reason
    } else {
        failure.replaced is None
    }
}

/// `progress` is what follows on a step with this outcome: the next step in
/// order, the end behind the last one, or what is said of a failure.
pub open spec fn progress_of(
    step: QueryStep,
    outcome: Result<(), String>,
    progress: QueryProgress,
) -> bool {
    match outcome {
        Err(reason) => progress is Failed && failure_of(step, reason@, progress->Failed_0),
        Ok(_) => if place_of(step) == step_count() - 1 {
            progress is Done
        } else {
            progress is Go && place_of(progress->Go_0) == place_of(step) + 1
        },
    }
}

/// Returns the first step of a query.
pub fn first_step() -> (step: QueryStep)
    ensures
        place_of(step) == 0,
{
    QueryStep::ListFiles
}

/// Puts a reason behind what is said of it.
fn with_reason(prefix: &str, reason: &str) -> (message: String)
    ensures
        message@ == prefix@ + reason@,
{
    let mut message = prefix.to_owned();
    message.append(reason);
    message
}

/// Says what follows when a step fails.
pub fn fail_step(step: QueryStep, reason: &str) -> (failure: QueryFailure)
    ensures
        failure_of(step, reason@, failure),
{
    let logged = match step {
        QueryStep::BuildRuntime => Some(with_reason("Failed to build runtime env: ", reason)),
        QueryStep::InferSchema => Some(with_reason("Failed to infer schema: ", reason)),
        QueryStep::CreateTable => Some(with_reason("Failed to create listing table: ", reason)),
        QueryStep::RegisterTable => Some(with_reason("Failed to register table: ", reason)),
        QueryStep::OpenStream => Some(with_reason("Failed to create execution stream: ", reason)),
        _ => None,
    };
    let replaced = match step {
        QueryStep::DecodePlan => Some(with_reason("Failed to decode Substrait: ", reason)),
        _ => None,
    };
    QueryFailure { logged, replaced }
}

/// Says what follows on a step with this outcome.
pub fn next_step(step: QueryStep, outcome: &Result<(), String>) -> (progress: QueryProgress)
    ensures
        progress_of(step, *outcome, progress),
{
    match outcome {
        Err(reason) => QueryProgress::Failed(fail_step(step, reason.as_str())),
        Ok(_) => match step {
            QueryStep::ListFiles => QueryProgress::Go(QueryStep::BuildRuntime),
            QueryStep::BuildRuntime => QueryProgress::Go(QueryStep::BuildSession),
            QueryStep::BuildSession => QueryProgress::Go(QueryStep::InferSchema),
            QueryStep::InferSchema => QueryProgress::Go(QueryStep::CreateTable),
            QueryStep::CreateTable => QueryProgress::Go(QueryStep::RegisterTable),
            QueryStep::RegisterTable => QueryProgress::Go(QueryStep::DecodePlan),
            QueryStep::DecodePlan => QueryProgress::Go(QueryStep::PlanLogical),
            QueryStep::PlanLogical => QueryProgress::Go(QueryStep::ExecuteLogical),
            QueryStep::ExecuteLogical => QueryProgress::Go(QueryStep::PlanPhysical),
            QueryStep::PlanPhysical => QueryProgress::Go(QueryStep::OpenStream),
            QueryStep::OpenStream => QueryProgress::Go(QueryStep::HandOut),
            QueryStep::HandOut => QueryProgress::Done,
        },
    }
}

/// The progress of a query of which each step leads to the next: `steps` are
/// the steps that were taken, `outcomes` what they came to, and `end` is what
/// followed on the last one.
pub open spec fn course(
    steps: Seq<QueryStep>,
    outcomes: Seq<Result<(), String>>,
    end: QueryProgress,
) -> bool {
    &&& steps.len() > 0
    &&& outcomes.len() == steps.len()
    &&& place_of(steps[0]) == 0
    &&& forall|i: int|
        0 <= i < steps.len() - 1 ==> progress_of(
            #[trigger] steps[i],
            outcomes[i],
            QueryProgress::Go(steps[i + 1]),
        )
    &&& progress_of(steps.last(), outcomes.last(), end)
}

/// A query takes its steps in order, each once, and all before the last one
/// taken succeeded.
pub proof fn law_steps_come_in_order(
    steps: Seq<QueryStep>,
    outcomes: Seq<Result<(), String>>,
    end: QueryProgress,
)
    requires
        course(steps, outcomes, end),
    ensures
        forall|i: int| 0 <= i < steps.len() ==> place_of(#[trigger] steps[i]) == i,
        forall|i: int| 0 <= i < steps.len() - 1 ==> (#[trigger] outcomes[i]) is Ok,
{
    assert forall|i: int| 0 <= i < steps.len() implies place_of(#[trigger] steps[i]) == i by {
        lemma_place(steps, outcomes, end, i);
    }
    assert forall|i: int| 0 <= i < steps.len() - 1 implies (#[trigger] outcomes[i]) is Ok by {
        assert(progress_of(steps[i], outcomes[i], QueryProgress::Go(steps[i + 1])));
    }
}

/// The step at a place is the one that belongs there.
proof fn lemma_place(
    steps: Seq<QueryStep>,
    outcomes: Seq<Result<(), String>>,
    end: QueryProgress,
    i: int,
)
    requires
        course(steps, outcomes, end),
        0 <= i < steps.len(),
    ensures
        place_of(steps[i]) == i,
    decreases i,
{
    if i > 0 {
        lemma_place(steps, outcomes, end, i - 1);
        assert(progress_of(steps[i - 1], outcomes[i - 1], QueryProgress::Go(steps[i - 1 + 1])));
    }
}

/// A query ends well if and only if all its steps were taken and succeeded.
/// Otherwise it fails at the first step that did.
pub proof fn law_query_ends_well_or_at_the_first_failure(
    steps: Seq<QueryStep>,
    outcomes: Seq<Result<(), String>>,
    end: QueryProgress,
)
    requires
        course(steps, outcomes, end),
        end !is Go,
    ensures
        end is Done <==> steps.len() == step_count() && outcomes.last() is Ok,
        end is Failed <==> outcomes.last() is Err,
{
    law_steps_come_in_order(steps, outcomes, end);
    assert(place_of(steps.last()) == steps.len() - 1);
}

/// Only a plan that cannot be decoded has its error replaced.
pub proof fn law_other_errors_are_handed_on(step: QueryStep, reason: Seq<char>, failure: QueryFailure)
    requires
        failure_of(step, reason, failure),
    ensures
        failure.replaced is Some <==> step == QueryStep::DecodePlan,
{
}

/// What a step needs was made before it: the list of files before the runtime,
/// that before the session, the session before anything is read, the schema before
/// the table, the table before the plan that speaks of it, and each form of the
/// plan before the next one.
pub proof fn law_steps_find_what_they_need()
    ensures
        place_of(QueryStep::ListFiles) < place_of(QueryStep::BuildRuntime) < place_of(
            QueryStep::BuildSession,
        ) < place_of(QueryStep::InferSchema) < place_of(QueryStep::CreateTable) < place_of(
            QueryStep::RegisterTable,
        ) < place_of(QueryStep::DecodePlan) < place_of(QueryStep::PlanLogical) < place_of(
            QueryStep::ExecuteLogical,
        ) < place_of(QueryStep::PlanPhysical) < place_of(QueryStep::OpenStream) < place_of(
            QueryStep::HandOut,
        ),
        step_count() == place_of(QueryStep::HandOut) - place_of(QueryStep::ListFiles) + 1,
{
}

} // verus!
