//! A run: from a Rustdoc JSON file to a graph and a receipt. The run decides; reading, writing
//! and validating are left to its caller, step by step.

use crate::document;
use crate::document::parse_document;
use crate::evidence;
use crate::graph;
use crate::graph::{compile_rustdoc_value, CompileError, GraphCounts, Tally};
use crate::json::{Json, JsonTree};
use crate::receipt;
use crate::receipt::{
    ReceiptRecord, SemanticDocumentationReceipt, ValidationReceipt, ValidationRecord,
    ValidatorOutput, ValidatorReport,
};
use crate::text;
use crate::text::{is_blank, push_decimal_int};
use vstd::prelude::*;

verus! {

/// What a run is asked to do. Paths stand here as they are displayed.
#[derive(Debug, Clone)]
pub struct SemanticDocsOptions {
    pub rustdoc_json: String,
    pub output: String,
    pub receipt: Option<String>,
    pub repository: Option<String>,
    pub revision: Option<String>,
    pub open_ontologies_bin: Option<String>,
}

/// The text of an optional string.
pub open spec fn optional_text(s: Option<String>) -> Option<Seq<char>> {
    match s {
        Some(s) => Some(s@),
        None => None,
    }
}

/// What options say.
pub struct OptionsRecord {
    pub rustdoc_json: Seq<char>,
    pub output: Seq<char>,
    pub receipt: Option<Seq<char>>,
    pub repository: Option<Seq<char>>,
    pub revision: Option<Seq<char>>,
    pub open_ontologies_bin: Option<Seq<char>>,
}

impl View for SemanticDocsOptions {
    type V = OptionsRecord;

    open spec fn view(&self) -> OptionsRecord {
        OptionsRecord {
            rustdoc_json: self.rustdoc_json@,
            output: self.output@,
            receipt: optional_text(self.receipt),
            repository: optional_text(self.repository),
            revision: optional_text(self.revision),
            open_ontologies_bin: optional_text(self.open_ontologies_bin),
        }
    }
}

/// An environment variable that stands in for an option.
#[derive(Debug, Clone, Copy, PartialEq, Eq, Structural)]
pub enum Variable {
    Revision,
    Repository,
}

impl Variable {
    /// The name of the variable.
    pub fn name(&self) -> (r: &'static str)
        ensures
            r@ == match self {
                Variable::Revision => "GITHUB_SHA"@,
                Variable::Repository => "GITHUB_REPOSITORY"@,
            },
    {
        match self {
            Variable::Revision => "GITHUB_SHA",
            Variable::Repository => "GITHUB_REPOSITORY",
        }
    }
}

/// Why a run fails.
#[derive(Debug)]
pub enum RunError {
    /// The input is no JSON document; what the parser says of it.
    InvalidJson(String),
    /// No revision is given, or a blank one.
    MissingRevision,
    /// No repository is given, or a blank one.
    MissingRepository,
    /// The document has no graph.
    Compile(CompileError),
    /// The validator did not succeed; its exit code, where it has one.
    ValidationRefused(Option<i32>),
}

/// Why a run fails, as mathematical values.
pub enum Failure {
    InvalidJson(Seq<char>),
    MissingRevision,
    MissingRepository,
    Compile(CompileError),
    ValidationRefused(Option<i32>),
}

impl View for RunError {
    type V = Failure;

    open spec fn view(&self) -> Failure {
        match self {
            RunError::InvalidJson(reason) => Failure::InvalidJson(reason@),
            RunError::MissingRevision => Failure::MissingRevision,
            RunError::MissingRepository => Failure::MissingRepository,
            RunError::Compile(error) => Failure::Compile(*error),
            RunError::ValidationRefused(exit_code) => Failure::ValidationRefused(*exit_code),
        }
    }
}

/// What a run has settled once the graph is compiled.
#[derive(Debug)]
pub struct Draft {
    pub format_version: u64,
    pub repository: String,
    pub revision: String,
    pub counts: GraphCounts,
}

/// What a draft says.
pub struct DraftRecord {
    pub format_version: u64,
    pub repository: Seq<char>,
    pub revision: Seq<char>,
    pub tally: Tally,
}

impl View for Draft {
    type V = DraftRecord;

    open spec fn view(&self) -> DraftRecord {
        DraftRecord {
            format_version: self.format_version,
            repository: self.repository@,
            revision: self.revision@,
            tally: self.counts@,
        }
    }
}

/// How far a run has come: what it waits for, and what it has settled.
pub enum RunState {
    /// Waits for the text of the Rustdoc JSON file.
    AwaitingInput,
    /// Waits for the variable that gives the revision.
    AwaitingRevision { document: Json },
    /// Waits for the variable that gives the repository.
    AwaitingRepository { document: Json, revision: String },
    /// Waits until the graph is written.
    AwaitingGraphWrite { draft: Draft, trig: String },
    /// Waits for what the validator says.
    AwaitingValidation { draft: Draft, validator: String },
    /// Waits until the receipt is written.
    AwaitingReceiptWrite { receipt: SemanticDocumentationReceipt },
    /// Ended with a receipt.
    Finished { receipt: SemanticDocumentationReceipt },
    /// Ended without one.
    Failed,
}

/// How far a run has come, as mathematical values.
pub enum Stage {
    AwaitingInput,
    AwaitingRevision { document: JsonTree },
    AwaitingRepository { document: JsonTree, revision: Seq<char> },
    AwaitingGraphWrite { draft: DraftRecord, trig: Seq<char> },
    AwaitingValidation { draft: DraftRecord, validator: Seq<char> },
    AwaitingReceiptWrite { receipt: ReceiptRecord },
    Finished { receipt: ReceiptRecord },
    Failed,
}

impl View for RunState {
    type V = Stage;

    open spec fn view(&self) -> Stage {
        match self {
            RunState::AwaitingInput => Stage::AwaitingInput,
            RunState::AwaitingRevision { document } => Stage::AwaitingRevision {
                document: document@,
            },
            RunState::AwaitingRepository { document, revision } => Stage::AwaitingRepository {
                document: document@,
                revision: revision@,
            },
            RunState::AwaitingGraphWrite { draft, trig } => Stage::AwaitingGraphWrite {
                draft: draft@,
                trig: trig@,
            },
            RunState::AwaitingValidation { draft, validator } => Stage::AwaitingValidation {
                draft: draft@,
                validator: validator@,
            },
            RunState::AwaitingReceiptWrite { receipt } => Stage::AwaitingReceiptWrite {
                receipt: receipt@,
            },
            RunState::Finished { receipt } => Stage::Finished { receipt: receipt@ },
            RunState::Failed => Stage::Failed,
        }
    }
}

/// What has happened since the last step.
pub enum RunEvent {
    /// The file was read.
    Input(String),
    /// The variable was looked up.
    Variable(Option<String>),
    /// The graph was written.
    GraphWritten,
    /// The validator ran to its end.
    Validated(ValidatorOutput),
    /// The receipt was written.
    ReceiptWritten,
}

/// What has happened, as mathematical values.
pub enum Occurrence {
    Input(Seq<char>),
    Variable(Option<Seq<char>>),
    GraphWritten,
    Validated(ValidatorReport),
    ReceiptWritten,
}

impl View for RunEvent {
    type V = Occurrence;

    open spec fn view(&self) -> Occurrence {
        match self {
            RunEvent::Input(raw) => Occurrence::Input(raw@),
            RunEvent::Variable(value) => Occurrence::Variable(optional_text(*value)),
            RunEvent::GraphWritten => Occurrence::GraphWritten,
            RunEvent::Validated(output) => Occurrence::Validated(output@),
            RunEvent::ReceiptWritten => Occurrence::ReceiptWritten,
        }
    }
}

/// What is to be done next.
#[derive(Debug)]
pub enum RunAction {
    /// Look up the variable.
    ReadVariable(Variable),
    /// Write the graph that the state holds to the output.
    WriteGraph,
    /// Validate the output.
    Validate,
    /// Write the receipt that the state holds to this path.
    WriteReceipt(String),
    /// The run succeeded.
    Succeed,
    /// The run failed.
    Fail(RunError),
}

/// What is to be done, as mathematical values.
pub enum Task {
    ReadVariable(Variable),
    WriteGraph,
    Validate,
    WriteReceipt(Seq<char>),
    Succeed,
    Fail(Failure),
}

impl View for RunAction {
    type V = Task;

    open spec fn view(&self) -> Task {
        match self {
            RunAction::ReadVariable(variable) => Task::ReadVariable(*variable),
            RunAction::WriteGraph => Task::WriteGraph,
            RunAction::Validate => Task::Validate,
            RunAction::WriteReceipt(path) => Task::WriteReceipt(path@),
            RunAction::Succeed => Task::Succeed,
            RunAction::Fail(error) => Task::Fail(error@),
        }
    }
}

// What a run decides.

/// An identity counts where it is given and not blank.
pub open spec fn identity(given: Option<Seq<char>>) -> Option<Seq<char>> {
    match given {
        Some(value) if !text::blank(value) => Some(value),
        _ => None,
    }
}

/// Where the receipt goes: to the path that is given, or beside the output.
pub open spec fn receipt_path_text(options: OptionsRecord) -> Seq<char> {
    match options.receipt {
        Some(path) => path,
        None => options.output + ".receipt.json"@,
    }
}

/// A run that fails ends.
pub open spec fn failed(failure: Failure) -> (Stage, Task) {
    (Stage::Failed, Task::Fail(failure))
}

/// The repository is settled: the graph is compiled.
pub open spec fn with_repository(
    document: JsonTree,
    revision: Seq<char>,
    repository: Option<Seq<char>>,
) -> (Stage, Task) {
    match identity(repository) {
        None => failed(Failure::MissingRepository),
        Some(repository) => match graph::compiled(document, repository, revision) {
            Err(error) => failed(Failure::Compile(error)),
            Ok((trig, format_version, tally)) => (
                Stage::AwaitingGraphWrite {
                    draft: DraftRecord { format_version, repository, revision, tally },
                    trig,
                },
                Task::WriteGraph,
            ),
        },
    }
}

/// The revision is settled: the repository is next. The variable is looked up only where the
/// option is not given.
pub open spec fn with_revision(
    options: OptionsRecord,
    document: JsonTree,
    revision: Option<Seq<char>>,
) -> (Stage, Task) {
    match identity(revision) {
        None => failed(Failure::MissingRevision),
        Some(revision) => match options.repository {
            Some(repository) => with_repository(document, revision, Some(repository)),
            None => (
                Stage::AwaitingRepository { document, revision },
                Task::ReadVariable(Variable::Repository),
            ),
        },
    }
}

/// The document is parsed: the revision is next. The variable is looked up only where the
/// option is not given.
pub open spec fn with_document(options: OptionsRecord, document: JsonTree) -> (Stage, Task) {
    match options.revision {
        Some(revision) => with_revision(options, document, Some(revision)),
        None => (Stage::AwaitingRevision { document }, Task::ReadVariable(Variable::Revision)),
    }
}

/// The input is read: it is parsed.
pub open spec fn with_input(options: OptionsRecord, raw: Seq<char>) -> (Stage, Task) {
    match document::parsed_json(raw) {
        Err(reason) => failed(Failure::InvalidJson(reason)),
        Ok(document) => with_document(options, document),
    }
}

/// The validation is settled: the receipt is drawn up and written, whatever the validation says.
pub open spec fn with_validation(
    options: OptionsRecord,
    draft: DraftRecord,
    validation: ValidationRecord,
) -> (Stage, Task) {
    (
        Stage::AwaitingReceiptWrite {
            receipt: receipt::receipt_record(
                draft.format_version,
                draft.repository,
                draft.revision,
                options.rustdoc_json,
                options.output,
                draft.tally,
                validation,
            ),
        },
        Task::WriteReceipt(receipt_path_text(options)),
    )
}

/// The receipt is written: a validation that was asked for has to have succeeded.
pub open spec fn with_receipt(receipt: ReceiptRecord) -> (Stage, Task) {
    if receipt.validation.requested && !receipt.validation.validated {
        (
            Stage::Finished { receipt },
            Task::Fail(Failure::ValidationRefused(receipt.validation.exit_code)),
        )
    } else {
        (Stage::Finished { receipt }, Task::Succeed)
    }
}

/// The event is the one that the run waits for.
pub open spec fn awaits(stage: Stage, occurrence: Occurrence) -> bool {
    match (stage, occurrence) {
        (Stage::AwaitingInput, Occurrence::Input(_)) => true,
        (Stage::AwaitingRevision { .. }, Occurrence::Variable(_)) => true,
        (Stage::AwaitingRepository { .. }, Occurrence::Variable(_)) => true,
        (Stage::AwaitingGraphWrite { .. }, Occurrence::GraphWritten) => true,
        (Stage::AwaitingValidation { .. }, Occurrence::Validated(_)) => true,
        (Stage::AwaitingReceiptWrite { .. }, Occurrence::ReceiptWritten) => true,
        _ => false,
    }
}

/// One step of a run.
pub open spec fn next(options: OptionsRecord, stage: Stage, occurrence: Occurrence) -> (Stage, Task) {
    match (stage, occurrence) {
        (Stage::AwaitingInput, Occurrence::Input(raw)) => with_input(options, raw),
        (Stage::AwaitingRevision { document }, Occurrence::Variable(value)) => with_revision(
            options,
            document,
            value,
        ),
        (
            Stage::AwaitingRepository { document, revision },
            Occurrence::Variable(value),
        ) => with_repository(document, revision, value),
        (
            Stage::AwaitingGraphWrite { draft, .. },
            Occurrence::GraphWritten,
        ) => match options.open_ontologies_bin {
            Some(validator) => (
                Stage::AwaitingValidation { draft, validator },
                Task::Validate,
            ),
            None => with_validation(options, draft, receipt::no_validation()),
        },
        (
            Stage::AwaitingValidation { draft, validator },
            Occurrence::Validated(report),
        ) => with_validation(options, draft, receipt::completed_validation(validator, report)),
        (
            Stage::AwaitingReceiptWrite { receipt },
            Occurrence::ReceiptWritten,
        ) => with_receipt(receipt),
        _ => arbitrary(),
    }
}

/// An identity counts where it is given and not blank.
pub fn accept_identity(given: Option<String>) -> (r: Option<String>)
    ensures
        optional_text(r) == identity(optional_text(given)),
{
    match given {
        Some(value) => if is_blank(value.as_str()) {
            None
        } else {
            Some(value)
        },
        None => None,
    }
}

/// Where the receipt goes.
pub fn receipt_path(options: &SemanticDocsOptions) -> (r: String)
    ensures
        r@ == receipt_path_text(options@),
{
    match &options.receipt {
        Some(path) => path.clone(),
        None => {
            let mut path = options.output.clone();
            path.push_str(".receipt.json");
            path
        },
    }
}

fn fail(error: RunError) -> (r: (RunState, RunAction))
    ensures
        (r.0@, r.1@) == failed(error@),
{
    (RunState::Failed, RunAction::Fail(error))
}

/// Settles the repository and compiles the graph.
pub fn settle_repository(document: &Json, revision: String, repository: Option<String>) -> (r: (
    RunState,
    RunAction,
))
    ensures
        (r.0@, r.1@) == with_repository(document@, revision@, optional_text(repository)),
{
    let repository = match accept_identity(repository) {
        Some(repository) => repository,
        None => return fail(RunError::MissingRepository),
    };
    proof {
        reveal(graph::compiled);
    }
    match compile_rustdoc_value(document, repository.as_str(), revision.as_str()) {
        Ok((trig, format_version, counts)) => (
            RunState::AwaitingGraphWrite {
                draft: Draft { format_version, repository, revision, counts },
                trig,
            },
            RunAction::WriteGraph,
        ),
        Err(error) => fail(RunError::Compile(error)),
    }
}

/// Settles the revision.
pub fn settle_revision(
    options: &SemanticDocsOptions,
    document: Json,
    revision: Option<String>,
) -> (r: (RunState, RunAction))
    ensures
        (r.0@, r.1@) == with_revision(options@, document@, optional_text(revision)),
{
    let revision = match accept_identity(revision) {
        Some(revision) => revision,
        None => return fail(RunError::MissingRevision),
    };
    match &options.repository {
        Some(repository) => settle_repository(&document, revision, Some(repository.clone())),
        None => (
            RunState::AwaitingRepository { document, revision },
            RunAction::ReadVariable(Variable::Repository),
        ),
    }
}

/// Goes on with a parsed document.
pub fn settle_document(options: &SemanticDocsOptions, document: Json) -> (r: (RunState, RunAction))
    ensures
        (r.0@, r.1@) == with_document(options@, document@),
{
    match &options.revision {
        Some(revision) => settle_revision(options, document, Some(revision.clone())),
        None => (
            RunState::AwaitingRevision { document },
            RunAction::ReadVariable(Variable::Revision),
        ),
    }
}

/// Draws up the receipt.
pub fn settle_validation(
    options: &SemanticDocsOptions,
    draft: Draft,
    validation: ValidationReceipt,
) -> (r: (RunState, RunAction))
    ensures
        (r.0@, r.1@) == with_validation(options@, draft@, validation@),
{
    let receipt = SemanticDocumentationReceipt::new(
        draft.format_version,
        draft.repository,
        draft.revision,
        options.rustdoc_json.clone(),
        options.output.clone(),
        draft.counts,
        validation,
    );
    (
        RunState::AwaitingReceiptWrite { receipt },
        RunAction::WriteReceipt(receipt_path(options)),
    )
}

/// Ends a run whose receipt is written.
pub fn settle_receipt(receipt: SemanticDocumentationReceipt) -> (r: (RunState, RunAction))
    ensures
        (r.0@, r.1@) == with_receipt(receipt@),
{
    if receipt.validation.refused() {
        let exit_code: Option<i32> = receipt.validation.exit_code;
        (
            RunState::Finished { receipt },
            RunAction::Fail(RunError::ValidationRefused(exit_code)),
        )
    } else {
        (RunState::Finished { receipt }, RunAction::Succeed)
    }
}

/// Whether the event is the one that the run waits for.
pub fn expects(state: &RunState, event: &RunEvent) -> (r: bool)
    ensures
        r == awaits(state@, event@),
{
    match (state, event) {
        (RunState::AwaitingInput, RunEvent::Input(_)) => true,
        (RunState::AwaitingRevision { .. }, RunEvent::Variable(_)) => true,
        (RunState::AwaitingRepository { .. }, RunEvent::Variable(_)) => true,
        (RunState::AwaitingGraphWrite { .. }, RunEvent::GraphWritten) => true,
        (RunState::AwaitingValidation { .. }, RunEvent::Validated(_)) => true,
        (RunState::AwaitingReceiptWrite { .. }, RunEvent::ReceiptWritten) => true,
        _ => false,
    }
}

/// Takes one step: from what has happened to what is to be done next.
pub fn step(options: &SemanticDocsOptions, state: RunState, event: RunEvent) -> (r: (
    RunState,
    RunAction,
))
    requires
        awaits(state@, event@),
    ensures
        (r.0@, r.1@) == next(options@, state@, event@),
{
    match (state, event) {
        (RunState::AwaitingInput, RunEvent::Input(raw)) => match parse_document(raw.as_str()) {
            Ok(document) => settle_document(options, document),
            Err(reason) => fail(RunError::InvalidJson(reason)),
        },
        (RunState::AwaitingRevision { document }, RunEvent::Variable(value)) => settle_revision(
            options,
            document,
            value,
        ),
        (
            RunState::AwaitingRepository { document, revision },
            RunEvent::Variable(value),
        ) => settle_repository(&document, revision, value),
        (
            RunState::AwaitingGraphWrite { draft, .. },
            RunEvent::GraphWritten,
        ) => match &options.open_ontologies_bin {
            Some(validator) => (
                RunState::AwaitingValidation { draft, validator: validator.clone() },
                RunAction::Validate,
            ),
            None => settle_validation(options, draft, ValidationReceipt::not_requested()),
        },
        (RunState::AwaitingValidation { draft, validator }, RunEvent::Validated(output)) => {
            settle_validation(options, draft, ValidationReceipt::completed(validator, &output))
        },
        (RunState::AwaitingReceiptWrite { receipt }, RunEvent::ReceiptWritten) => settle_receipt(
            receipt,
        ),
        _ => vstd::pervasive::unreached(),
    }
}

/// An exit code as it is shown: `Some(..)` or `None`.
pub open spec fn exit_text(exit_code: Option<i32>) -> Seq<char> {
    match exit_code {
        Some(code) => "Some("@ + text::decimal_int(code as int) + ")"@,
        None => "None"@,
    }
}

/// A failure in words.
pub open spec fn failure_text(options: OptionsRecord, failure: Failure) -> Seq<char> {
    match failure {
        Failure::InvalidJson(_) => "invalid Rustdoc JSON at "@ + options.rustdoc_json,
        Failure::MissingRevision =>
            "semantic documentation requires an exact revision via --revision or GITHUB_SHA"@,
        Failure::MissingRepository =>
            "semantic documentation requires a repository identity via --repository or GITHUB_REPOSITORY"@,
        Failure::Compile(CompileError::MissingFormatVersion) =>
            "Rustdoc JSON missing numeric format_version"@,
        Failure::Compile(CompileError::MissingIndex) => "Rustdoc JSON missing index object"@,
        Failure::ValidationRefused(exit_code) =>
            "Open Ontologies validation refused semantic documentation graph (exit "@ + exit_text(
                exit_code,
            ) + "); receipt preserved at "@ + receipt_path_text(options),
    }
}

impl RunError {
    /// The error in words.
    pub fn message(&self, options: &SemanticDocsOptions) -> (r: String)
        ensures
            r@ == failure_text(options@, self@),
    {
        match self {
            RunError::InvalidJson(_) => {
                let mut out = "invalid Rustdoc JSON at ".to_owned();
                out.push_str(options.rustdoc_json.as_str());
                out
            },
            RunError::MissingRevision =>
                "semantic documentation requires an exact revision via --revision or GITHUB_SHA".to_owned(),
            RunError::MissingRepository =>
                "semantic documentation requires a repository identity via --repository or GITHUB_REPOSITORY".to_owned(),
            RunError::Compile(error) => error.message().to_owned(),
            RunError::ValidationRefused(exit_code) => {
                let exit = match exit_code {
                    Some(code) => {
                        let mut out = "Some(".to_owned();
                        push_decimal_int(&mut out, *code as i64);
                        out.push_str(")");
                        out
                    },
                    None => "None".to_owned(),
                };
                let mut out =
                    "Open Ontologies validation refused semantic documentation graph (exit ".to_owned();
                out.push_str(exit.as_str());
                out.push_str("); receipt preserved at ");
                out.push_str(receipt_path(options).as_str());
                out
            },
        }
    }
}

// What holds of every run.

/// How many steps a run has left at most.
pub open spec fn steps_left(stage: Stage) -> nat {
    match stage {
        Stage::AwaitingInput => 6,
        Stage::AwaitingRevision { .. } => 5,
        Stage::AwaitingRepository { .. } => 4,
        Stage::AwaitingGraphWrite { .. } => 3,
        Stage::AwaitingValidation { .. } => 2,
        Stage::AwaitingReceiptWrite { .. } => 1,
        Stage::Finished { .. } => 0,
        Stage::Failed => 0,
    }
}

/// Every step brings a run nearer to its end, and it is over exactly where the step says that
/// it succeeded or failed.
pub proof fn law_run_ends(options: OptionsRecord, stage: Stage, occurrence: Occurrence)
    requires
        awaits(stage, occurrence),
    ensures
        steps_left(next(options, stage, occurrence).0) < steps_left(stage),
        steps_left(next(options, stage, occurrence).0) == 0 <==> (next(
            options,
            stage,
            occurrence,
        ).1 is Succeed || next(options, stage, occurrence).1 is Fail),
{
}

/// What a run meets outside: the text of its input, the variables, and what the validator says.
pub struct World {
    pub input: Seq<char>,
    pub revision: Option<Seq<char>>,
    pub repository: Option<Seq<char>>,
    pub report: ValidatorReport,
}

/// What happens when a task is done in the given world.
pub open spec fn done(world: World, task: Task) -> Occurrence {
    match task {
        Task::ReadVariable(Variable::Revision) => Occurrence::Variable(world.revision),
        Task::ReadVariable(Variable::Repository) => Occurrence::Variable(world.repository),
        Task::WriteGraph => Occurrence::GraphWritten,
        Task::Validate => Occurrence::Validated(world.report),
        _ => Occurrence::ReceiptWritten,
    }
}

/// The steps of a run from a stage on, each with the stage that it leads to.
pub open spec fn steps_from(
    options: OptionsRecord,
    world: World,
    stage: Stage,
    occurrence: Occurrence,
) -> Seq<(Stage, Task)>
    decreases steps_left(stage),
{
    let after = next(options, stage, occurrence);
    if steps_left(after.0) == 0 || steps_left(after.0) >= steps_left(stage) {
        seq![after]
    } else {
        seq![after] + steps_from(options, world, after.0, done(world, after.1))
    }
}

/// All the steps of a run.
pub open spec fn run_steps(options: OptionsRecord, world: World) -> Seq<(Stage, Task)> {
    steps_from(options, world, Stage::AwaitingInput, Occurrence::Input(world.input))
}

/// The option where it is given, else the variable.
pub open spec fn option_or_variable(
    option: Option<Seq<char>>,
    variable: Option<Seq<char>>,
) -> Option<Seq<char>> {
    match option {
        Some(value) => Some(value),
        None => variable,
    }
}

/// What a run settles before it writes: the graph and its draft, or why there is none.
pub open spec fn settled(options: OptionsRecord, world: World) -> Result<
    (Seq<char>, DraftRecord),
    Failure,
> {
    match document::parsed_json(world.input) {
        Err(reason) => Err(Failure::InvalidJson(reason)),
        Ok(document) => match identity(option_or_variable(options.revision, world.revision)) {
            None => Err(Failure::MissingRevision),
            Some(revision) => match identity(
                option_or_variable(options.repository, world.repository),
            ) {
                None => Err(Failure::MissingRepository),
                Some(repository) => match graph::compiled(document, repository, revision) {
                    Err(error) => Err(Failure::Compile(error)),
                    Ok((trig, format_version, tally)) => Ok(
                        (trig, DraftRecord { format_version, repository, revision, tally }),
                    ),
                },
            },
        },
    }
}

/// The receipt of a run that has settled its draft.
pub open spec fn final_receipt(
    options: OptionsRecord,
    world: World,
    draft: DraftRecord,
) -> ReceiptRecord {
    receipt::receipt_record(
        draft.format_version,
        draft.repository,
        draft.revision,
        options.rustdoc_json,
        options.output,
        draft.tally,
        match options.open_ontologies_bin {
            Some(validator) => receipt::completed_validation(validator, world.report),
            None => receipt::no_validation(),
        },
    )
}

/// The steps that a run takes from the compiled graph on.
pub open spec fn writing_steps(
    options: OptionsRecord,
    world: World,
    trig: Seq<char>,
    draft: DraftRecord,
) -> Seq<(Stage, Task)> {
    let receipt = final_receipt(options, world, draft);
    let write = (Stage::AwaitingGraphWrite { draft, trig }, Task::WriteGraph);
    let record = (
        Stage::AwaitingReceiptWrite { receipt },
        Task::WriteReceipt(receipt_path_text(options)),
    );
    match options.open_ontologies_bin {
        Some(validator) => seq![
            write,
            (Stage::AwaitingValidation { draft, validator }, Task::Validate),
            record,
            with_receipt(receipt),
        ],
        None => seq![write, record, with_receipt(receipt)],
    }
}

/// The variables that a run looks up before it compiles: each only where its option is not
/// given, the repository only once the revision is settled.
pub open spec fn lookups(options: OptionsRecord, world: World) -> Seq<Variable> {
    if document::parsed_json(world.input) is Err {
        seq![]
    } else {
        (if options.revision is None {
            seq![Variable::Revision]
        } else {
            seq![]
        }) + (if options.repository is None && identity(
            option_or_variable(options.revision, world.revision),
        ) is Some {
            seq![Variable::Repository]
        } else {
            seq![]
        })
    }
}

proof fn lemma_writing_steps(
    options: OptionsRecord,
    world: World,
    trig: Seq<char>,
    draft: DraftRecord,
)
    ensures
        seq![(Stage::AwaitingGraphWrite { draft, trig }, Task::WriteGraph)] + steps_from(
            options,
            world,
            Stage::AwaitingGraphWrite { draft, trig },
            Occurrence::GraphWritten,
        ) == writing_steps(options, world, trig, draft),
{
    let receipt = final_receipt(options, world, draft);
    let recording = Stage::AwaitingReceiptWrite { receipt };
    assert(steps_from(options, world, recording, Occurrence::ReceiptWritten) == seq![
        with_receipt(receipt),
    ]);
    let record = (recording, Task::WriteReceipt(receipt_path_text(options)));
    match options.open_ontologies_bin {
        Some(validator) => {
            let validating = Stage::AwaitingValidation { draft, validator };
            assert(steps_from(
                options,
                world,
                validating,
                Occurrence::Validated(world.report),
            ) == seq![record] + seq![with_receipt(receipt)]);
            assert(steps_from(
                options,
                world,
                Stage::AwaitingGraphWrite { draft, trig },
                Occurrence::GraphWritten,
            ) == seq![(validating, Task::Validate)] + (seq![record] + seq![with_receipt(receipt)]));
        },
        None => {
            assert(steps_from(
                options,
                world,
                Stage::AwaitingGraphWrite { draft, trig },
                Occurrence::GraphWritten,
            ) == seq![record] + seq![with_receipt(receipt)]);
        },
    }
    assert(seq![(Stage::AwaitingGraphWrite { draft, trig }, Task::WriteGraph)] + steps_from(
        options,
        world,
        Stage::AwaitingGraphWrite { draft, trig },
        Occurrence::GraphWritten,
    ) =~= writing_steps(options, world, trig, draft));
}

/// A step and those that follow it.
spec fn with_rest(options: OptionsRecord, world: World, after: (Stage, Task)) -> Seq<(Stage, Task)> {
    if steps_left(after.0) == 0 {
        seq![after]
    } else {
        seq![after] + steps_from(options, world, after.0, done(world, after.1))
    }
}

proof fn lemma_steps_from(
    options: OptionsRecord,
    world: World,
    stage: Stage,
    occurrence: Occurrence,
)
    requires
        awaits(stage, occurrence),
    ensures
        steps_from(options, world, stage, occurrence) == with_rest(
            options,
            world,
            next(options, stage, occurrence),
        ),
{
    law_run_ends(options, stage, occurrence);
}

/// The steps of a run once its variables are looked up.
pub open spec fn decisive_steps(options: OptionsRecord, world: World) -> Seq<(Stage, Task)> {
    match settled(options, world) {
        Ok((trig, draft)) => writing_steps(options, world, trig, draft),
        Err(failure) => seq![failed(failure)],
    }
}

proof fn lemma_with_repository(
    options: OptionsRecord,
    world: World,
    document: JsonTree,
    revision: Seq<char>,
)
    requires
        document::parsed_json(world.input) == Ok::<JsonTree, Seq<char>>(document),
        identity(option_or_variable(options.revision, world.revision)) == Some(revision),
    ensures
        with_rest(
            options,
            world,
            with_repository(
                document,
                revision,
                option_or_variable(options.repository, world.repository),
            ),
        ) == decisive_steps(options, world),
{
    if let Ok((trig, draft)) = settled(options, world) {
        lemma_writing_steps(options, world, trig, draft);
    }
}

/// What a run does once its revision is known.
proof fn lemma_with_revision(options: OptionsRecord, world: World, document: JsonTree)
    requires
        document::parsed_json(world.input) == Ok::<JsonTree, Seq<char>>(document),
    ensures
        ({
            let steps = with_rest(
                options,
                world,
                with_revision(
                    options,
                    document,
                    option_or_variable(options.revision, world.revision),
                ),
            );
            let decisive = decisive_steps(options, world);
            if options.repository is None && identity(
                option_or_variable(options.revision, world.revision),
            ) is Some {
                &&& steps.len() == decisive.len() + 1
                &&& steps[0].1 == Task::ReadVariable(Variable::Repository)
                &&& steps.skip(1) == decisive
            } else {
                steps == decisive
            }
        }),
{
    match identity(option_or_variable(options.revision, world.revision)) {
        Some(revision) => {
            lemma_with_repository(options, world, document, revision);
            if options.repository is None {
                let stage = Stage::AwaitingRepository { document, revision };
                lemma_steps_from(options, world, stage, Occurrence::Variable(world.repository));
                let after = (stage, Task::ReadVariable(Variable::Repository));
                let decisive = decisive_steps(options, world);
                assert((seq![after] + decisive).skip(1) =~= decisive);
            }
        },
        None => {},
    }
}

/// A run first looks up the variables that it needs; then it fails, with nothing written, or it
/// writes the graph, has it validated where that is asked for, and writes the receipt.
pub proof fn law_run_steps(options: OptionsRecord, world: World)
    ensures
        run_steps(options, world).len() == lookups(options, world).len() + decisive_steps(
            options,
            world,
        ).len(),
        run_steps(options, world).skip(lookups(options, world).len() as int) == decisive_steps(
            options,
            world,
        ),
        forall|i: int|
            0 <= i < lookups(options, world).len() ==> (#[trigger] run_steps(options, world)[i]).1
                == Task::ReadVariable(lookups(options, world)[i]),
{
    let steps = run_steps(options, world);
    let decisive = decisive_steps(options, world);
    lemma_steps_from(options, world, Stage::AwaitingInput, Occurrence::Input(world.input));
    match document::parsed_json(world.input) {
        Err(_) => {
            assert(steps.skip(0) =~= decisive);
        },
        Ok(document) => {
            lemma_with_revision(options, world, document);
            let known = with_rest(
                options,
                world,
                with_revision(
                    options,
                    document,
                    option_or_variable(options.revision, world.revision),
                ),
            );
            if options.revision is None {
                let stage = Stage::AwaitingRevision { document };
                lemma_steps_from(options, world, stage, Occurrence::Variable(world.revision));
                let after = (stage, Task::ReadVariable(Variable::Revision));
                assert(steps == seq![after] + known);
                assert(steps.skip(1) =~= known);
                assert(steps.skip(2) =~= known.skip(1));
                assert(known.len() > 0 ==> steps[1] == known[0]);
            } else {
                assert(steps == known);
                assert(steps.skip(0) =~= steps);
            }
        },
    }
}

/// A run that does not settle its graph ends with the reason; it writes nothing and does not
/// validate.
pub proof fn law_unsettled_run_writes_nothing(options: OptionsRecord, world: World)
    requires
        settled(options, world) is Err,
    ensures
        run_steps(options, world).last() == failed(settled(options, world)->Err_0),
        forall|i: int|
            0 <= i < run_steps(options, world).len() ==> !((#[trigger] run_steps(
                options,
                world,
            )[i]).1 is WriteGraph) && !(run_steps(options, world)[i].1 is WriteReceipt) && !(run_steps(
                options,
                world,
            )[i].1 is Validate),
{
    let steps = run_steps(options, world);
    let n = lookups(options, world).len() as int;
    law_run_steps(options, world);
    assert(steps.skip(n)[0] == steps[n]);
}

/// Where a validation was asked for and refused the graph, the run fails, and by then the graph
/// and the receipt are both written.
pub proof fn law_refusal_preserves_receipt(options: OptionsRecord, world: World)
    requires
        settled(options, world) is Ok,
        options.open_ontologies_bin is Some,
        !world.report.success,
    ensures
        ({
            let steps = run_steps(options, world);
            let (trig, draft) = settled(options, world)->Ok_0;
            let receipt = final_receipt(options, world, draft);
            let n = steps.len() as int;
            &&& n >= 4
            &&& steps[n - 1] == (
                Stage::Finished { receipt },
                Task::Fail(Failure::ValidationRefused(world.report.exit_code)),
            )
            &&& steps[n - 2] == (
                Stage::AwaitingReceiptWrite { receipt },
                Task::WriteReceipt(receipt_path_text(options)),
            )
            &&& steps[n - 4] == (Stage::AwaitingGraphWrite { draft, trig }, Task::WriteGraph)
        }),
{
    let steps = run_steps(options, world);
    let k = lookups(options, world).len() as int;
    law_run_steps(options, world);
    let (trig, draft) = settled(options, world)->Ok_0;
    let w = writing_steps(options, world, trig, draft);
    assert(steps.skip(k) == w);
    assert(w[0] == steps[k] && w[1] == steps[k + 1] && w[2] == steps[k + 2] && w[3] == steps[k
        + 3]);
}

/// A run succeeds exactly where its graph is settled and a validation that was asked for has
/// succeeded.
pub proof fn law_run_succeeds(options: OptionsRecord, world: World)
    ensures
        run_steps(options, world).last().1 is Succeed <==> settled(options, world) is Ok && (
        options.open_ontologies_bin is Some ==> world.report.success),
{
    let steps = run_steps(options, world);
    let k = lookups(options, world).len() as int;
    law_run_steps(options, world);
    let d = decisive_steps(options, world);
    assert(steps.skip(k).last() == steps.last());
    assert(steps.last() == d.last());
}

/// What a run settles depends on the text of its input and on the two identities alone: not on
/// the paths, on whether an identity is given by option or by variable, or on the validator.
pub proof fn law_graph_depends_on_input_and_identities(
    options: OptionsRecord,
    world: World,
    other_options: OptionsRecord,
    other_world: World,
)
    requires
        world.input == other_world.input,
        option_or_variable(options.revision, world.revision) == option_or_variable(
            other_options.revision,
            other_world.revision,
        ),
        option_or_variable(options.repository, world.repository) == option_or_variable(
            other_options.repository,
            other_world.repository,
        ),
    ensures
        settled(options, world) == settled(other_options, other_world),
{
}

/// A blank option is not replaced by the variable: the run fails.
pub proof fn law_blank_revision_is_refused(
    options: OptionsRecord,
    world: World,
    revision: Seq<char>,
)
    requires
        document::parsed_json(world.input) is Ok,
        options.revision == Some(revision),
        text::blank(revision),
    ensures
        run_steps(options, world) == seq![failed(Failure::MissingRevision)],
{
    lemma_steps_from(options, world, Stage::AwaitingInput, Occurrence::Input(world.input));
}

/// Nor is a blank repository: once the revision is settled, the run fails, and the variable for
/// the repository is not looked up.
pub proof fn law_blank_repository_is_refused(
    options: OptionsRecord,
    world: World,
    repository: Seq<char>,
)
    requires
        document::parsed_json(world.input) is Ok,
        identity(option_or_variable(options.revision, world.revision)) is Some,
        options.repository == Some(repository),
        text::blank(repository),
    ensures
        run_steps(options, world).last() == failed(Failure::MissingRepository),
        options.revision is Some ==> run_steps(options, world) == seq![
            failed(Failure::MissingRepository),
        ],
        forall|i: int|
            0 <= i < run_steps(options, world).len() ==> (#[trigger] run_steps(options, world)[i]).1
                != Task::ReadVariable(Variable::Repository),
{
    let steps = run_steps(options, world);
    let n = lookups(options, world).len() as int;
    law_run_steps(options, world);
    assert(steps.skip(n)[0] == steps[n]);
    if options.revision is Some {
        assert(steps =~= steps.skip(n));
    }
}

/// An identity that is given is taken as it is, unless it is blank.
pub proof fn law_identity_is_taken_as_given(value: Seq<char>)
    ensures
        identity(None) is None,
        text::blank(value) ==> identity(Some(value)) is None,
        !text::blank(value) ==> identity(Some(value)) == Some(value),
{
}

/// How a run ends, in terms of what it is given: an input that is no JSON document fails it with
/// what the parser says, then a revision and a repository have to be given and not blank, by option
/// or else by variable, then the document has to have a format version and an index, and then a
/// validation that is asked for has to succeed.
pub proof fn law_run_outcome(options: OptionsRecord, world: World)
    ensures
        ({
            let end = run_steps(options, world).last().1;
            let revision = if options.revision is Some {
                options.revision
            } else {
                world.revision
            };
            let repository = if options.repository is Some {
                options.repository
            } else {
                world.repository
            };
            match document::parsed_json(world.input) {
                Err(reason) => end == Task::Fail(Failure::InvalidJson(reason)),
                Ok(document) => {
                    let version = document.member("format_version"@);
                    let index = document.member("index"@);
                    if revision is None || text::blank(revision->0) {
                        end == Task::Fail(Failure::MissingRevision)
                    } else if repository is None || text::blank(repository->0) {
                        end == Task::Fail(Failure::MissingRepository)
                    } else if !(version is Some && version->0 is Int && 0 <= version->0->Int_0
                        <= u64::MAX) {
                        end == Task::Fail(Failure::Compile(CompileError::MissingFormatVersion))
                    } else if !(index is Some && index->0 is Object) {
                        end == Task::Fail(Failure::Compile(CompileError::MissingIndex))
                    } else if options.open_ontologies_bin is Some && !world.report.success {
                        end == Task::Fail(Failure::ValidationRefused(world.report.exit_code))
                    } else {
                        end == Task::Succeed
                    }
                },
            }
        }),
{
    let steps = run_steps(options, world);
    let k = lookups(options, world).len() as int;
    law_run_steps(options, world);
    let d = decisive_steps(options, world);
    assert(steps.skip(k).last() == steps.last());
    if let Ok(document) = document::parsed_json(world.input) {
        if let Some(revision) = identity(option_or_variable(options.revision, world.revision)) {
            if let Some(repository) = identity(
                option_or_variable(options.repository, world.repository),
            ) {
                graph::law_what_has_a_graph(document, repository, revision);
            }
        }
    }
}

/// The variables that a run looks up: the revision's exactly where the option is not given and the
/// input is a document, the repository's only where its option is not given.
pub proof fn law_run_looks_up(options: OptionsRecord, world: World, i: int)
    requires
        0 <= i < run_steps(options, world).len(),
    ensures
        run_steps(options, world)[i].1 == Task::ReadVariable(Variable::Revision)
            <==> i == 0 && options.revision is None && document::parsed_json(world.input) is Ok,
        run_steps(options, world)[i].1 == Task::ReadVariable(Variable::Repository)
            ==> options.repository is None && document::parsed_json(world.input) is Ok,
{
    let steps = run_steps(options, world);
    let n = lookups(options, world).len() as int;
    law_run_steps(options, world);
    if i >= n {
        assert(steps.skip(n)[i - n] == steps[i]);
    }
}

/// What a run with its input and its identities in order writes: the graph of the document under
/// the identities as they are given, and a receipt with these identities, the paths, the format
/// version, the counts of the document's index, and what came of the validation.
pub proof fn law_run_writes_the_truth(
    options: OptionsRecord,
    world: World,
    document: Json,
    index: Map<Seq<char>, JsonTree>,
    version: u64,
    revision: Seq<char>,
    repository: Seq<char>,
    i: int,
)
    requires
        document::parsed_json(world.input) == Ok::<JsonTree, Seq<char>>(document@),
        document@.member("format_version"@) == Some(JsonTree::Int(version as int)),
        document@.member("index"@) == Some(JsonTree::Object(index)),
        options.revision == Some(revision) || (options.revision is None && world.revision == Some(
            revision,
        )),
        options.repository == Some(repository) || (options.repository is None && world.repository
            == Some(repository)),
        !text::blank(revision),
        !text::blank(repository),
        0 <= i < run_steps(options, world).len(),
    ensures
        run_steps(options, world)[i].0 matches Stage::AwaitingGraphWrite { trig, .. } ==> trig
            == graph::graph_text(document@, repository, revision),
        run_steps(options, world)[i].0 matches Stage::AwaitingReceiptWrite { receipt } ==> {
            &&& receipt.schema_version == "litho.semantic-documentation.receipt/v1"@
            &&& receipt.extractor == "rustdoc-json"@
            &&& receipt.rustdoc_format_version == version
            &&& receipt.repository == repository
            &&& receipt.revision == revision
            &&& receipt.input == options.rustdoc_json
            &&& receipt.output == options.output
            &&& receipt.authority == "none"@
            &&& receipt.standing == "PARTIAL_ALIVE"@
            &&& receipt.tally.items == index.dom().filter(
                |id: Seq<char>| index[id] is Object,
            ).len()
            &&& receipt.tally.documented == index.dom().filter(
                |id: Seq<char>|
                    index[id] is Object && (index[id].member("docs"@) matches Some(
                        JsonTree::Text(_),
                    )),
            ).len()
            &&& receipt.tally.spans == index.dom().filter(
                |id: Seq<char>|
                    index[id] is Object && (index[id].member("span"@) matches Some(
                        JsonTree::Object(_),
                    )),
            ).len()
            &&& receipt.tally.references == Set::new(
                |p: (Seq<char>, Seq<char>)| evidence::refers(index, p.0, p.1),
            ).len()
            &&& receipt.tally.documented <= receipt.tally.items
            &&& receipt.tally.spans <= receipt.tally.items
            &&& match options.open_ontologies_bin {
                Some(validator) => {
                    &&& receipt.validation.validator == validator
                    &&& receipt.validation.requested
                    &&& receipt.validation.exit_code == world.report.exit_code
                    &&& receipt.validation.stdout == receipt::lossy_utf8(world.report.stdout)
                    &&& receipt.validation.stderr == receipt::lossy_utf8(world.report.stderr)
                    &&& receipt.validation.validated == world.report.success
                },
                None => !receipt.validation.requested && !receipt.validation.validated
                    && receipt.validation.exit_code is None,
            }
            &&& run_steps(options, world)[i].1 == Task::WriteReceipt(
                match options.receipt {
                    Some(path) => path,
                    None => options.output + ".receipt.json"@,
                },
            )
        },
        run_steps(options, world)[i].0 matches Stage::Finished { receipt } ==> i > 0
            && run_steps(options, world)[i - 1].0 == (Stage::AwaitingReceiptWrite { receipt }),
{
    lemma_settled(options, world, document, index, version, revision, repository);
    lemma_written_stages(options, world, i);
    evidence::law_counts_are_exact(document, index);
}

/// What a run with its input and its identities in order settles.
proof fn lemma_settled(
    options: OptionsRecord,
    world: World,
    document: Json,
    index: Map<Seq<char>, JsonTree>,
    version: u64,
    revision: Seq<char>,
    repository: Seq<char>,
)
    requires
        document::parsed_json(world.input) == Ok::<JsonTree, Seq<char>>(document@),
        document@.member("format_version"@) == Some(JsonTree::Int(version as int)),
        document@.member("index"@) == Some(JsonTree::Object(index)),
        option_or_variable(options.revision, world.revision) == Some(revision),
        option_or_variable(options.repository, world.repository) == Some(repository),
        !text::blank(revision),
        !text::blank(repository),
    ensures
        settled(options, world) == Ok::<(Seq<char>, DraftRecord), Failure>(
            (
                graph::graph_text(document@, repository, revision),
                DraftRecord {
                    format_version: version,
                    repository,
                    revision,
                    tally: graph::document_tally(document@),
                },
            ),
        ),
{
    graph::law_what_has_a_graph(document@, repository, revision);
}

/// What the stages of a run that has settled its graph hold.
proof fn lemma_written_stages(options: OptionsRecord, world: World, i: int)
    requires
        settled(options, world) is Ok,
        0 <= i < run_steps(options, world).len(),
    ensures
        ({
            let steps = run_steps(options, world);
            let (trig, draft) = settled(options, world)->Ok_0;
            &&& steps[i].0 is AwaitingGraphWrite ==> steps[i].0 == (Stage::AwaitingGraphWrite {
                draft,
                trig,
            })
            &&& steps[i].0 is AwaitingReceiptWrite ==> steps[i] == (
                Stage::AwaitingReceiptWrite { receipt: final_receipt(options, world, draft) },
                Task::WriteReceipt(receipt_path_text(options)),
            )
            &&& steps[i].0 is Finished ==> i > 0 && steps[i].0 == (Stage::Finished {
                receipt: final_receipt(options, world, draft),
            }) && steps[i - 1].0 == (Stage::AwaitingReceiptWrite {
                receipt: final_receipt(options, world, draft),
            })
        }),
{
    let steps = run_steps(options, world);
    let n = lookups(options, world).len() as int;
    law_run_steps(options, world);
    let (trig, draft) = settled(options, world)->Ok_0;
    let w = writing_steps(options, world, trig, draft);
    assert(steps.skip(n) == w);
    if i >= n {
        assert(w[i - n] == steps[i]);
        if i > n {
            assert(w[i - 1 - n] == steps[i - 1]);
        }
    } else {
        lemma_lookup_stages(options, world, i);
    }
}

proof fn lemma_lookup_stages(options: OptionsRecord, world: World, i: int)
    requires
        0 <= i < lookups(options, world).len(),
        i < run_steps(options, world).len(),
    ensures
        run_steps(options, world)[i].0 is AwaitingRevision || run_steps(
            options,
            world,
        )[i].0 is AwaitingRepository,
{
    let steps = run_steps(options, world);
    let document = document::parsed_json(world.input)->Ok_0;
    lemma_steps_from(options, world, Stage::AwaitingInput, Occurrence::Input(world.input));
    if options.revision is None {
        let stage = Stage::AwaitingRevision { document };
        lemma_steps_from(options, world, stage, Occurrence::Variable(world.revision));
    }
}

/// What a run with its input and its identities in order does, in this order: it writes the graph,
/// validates exactly where it is asked to, writes the receipt, and ends.
pub proof fn law_run_does_its_work(options: OptionsRecord, world: World)
    requires
        settled(options, world) is Ok,
    ensures
        ({
            let steps = run_steps(options, world);
            let n = steps.len() as int;
            let v: int = if options.open_ontologies_bin is Some {
                1
            } else {
                0
            };
            &&& n >= 3 + v
            &&& steps[n - 3 - v].1 == Task::WriteGraph
            &&& v == 1 ==> steps[n - 3].1 == Task::Validate
            &&& steps[n - 2].1 is WriteReceipt
            &&& steps[n - 1].1 is Succeed || steps[n - 1].1 is Fail
            &&& forall|i: int|
                0 <= i < n - 3 - v ==> (#[trigger] steps[i]).1 is ReadVariable
        }),
{
    let steps = run_steps(options, world);
    let k = lookups(options, world).len() as int;
    law_run_steps(options, world);
    let (trig, draft) = settled(options, world)->Ok_0;
    let w = writing_steps(options, world, trig, draft);
    assert(steps.skip(k) == w);
    assert(w[0] == steps[k] && w[1] == steps[k + 1] && w[2] == steps[k + 2]);
    if options.open_ontologies_bin is Some {
        assert(w[3] == steps[k + 3]);
    }
}

/// A failure in words says what is to be known of it: the input that is no document, the option and
/// the variable that would give an identity, what the document lacks, or how the validator ended
/// and where the receipt is.
pub proof fn law_failure_words(options: OptionsRecord, reason: Seq<char>, code: i32)
    ensures
        failure_text(options, Failure::InvalidJson(reason)) == "invalid Rustdoc JSON at "@
            + options.rustdoc_json,
        failure_text(options, Failure::Compile(CompileError::MissingFormatVersion))
            == "Rustdoc JSON missing numeric format_version"@,
        failure_text(options, Failure::Compile(CompileError::MissingIndex))
            == "Rustdoc JSON missing index object"@,
        failure_text(options, Failure::ValidationRefused(None))
            == "Open Ontologies validation refused semantic documentation graph (exit "@ + "None"@
            + "); receipt preserved at "@ + receipt_path_text(options),
        failure_text(options, Failure::ValidationRefused(Some(code)))
            == "Open Ontologies validation refused semantic documentation graph (exit "@ + (
        "Some("@ + text::decimal_int(code as int) + ")"@) + "); receipt preserved at "@
            + receipt_path_text(options),
        failure_text(options, Failure::MissingRevision)
            == "semantic documentation requires an exact revision via --revision or GITHUB_SHA"@,
        failure_text(options, Failure::MissingRepository)
            == "semantic documentation requires a repository identity via --repository or GITHUB_REPOSITORY"@,
        receipt_path_text(options) == (match options.receipt {
            Some(path) => path,
            None => options.output + ".receipt.json"@,
        }),
{
}

/// Options say what their fields hold, each under its own name.
pub proof fn law_options_say_their_fields(options: SemanticDocsOptions, s: String)
    ensures
        options@.rustdoc_json == options.rustdoc_json@,
        options@.output == options.output@,
        options.receipt is None <==> options@.receipt is None,
        options.receipt == Some(s) ==> options@.receipt == Some(s@),
        options.repository is None <==> options@.repository is None,
        options.repository == Some(s) ==> options@.repository == Some(s@),
        options.revision is None <==> options@.revision is None,
        options.revision == Some(s) ==> options@.revision == Some(s@),
        options.open_ontologies_bin is None <==> options@.open_ontologies_bin is None,
        options.open_ontologies_bin == Some(s) ==> options@.open_ontologies_bin == Some(s@),
{
}

/// Drafts, states, events and actions say what they hold.
pub proof fn law_states_say_what_they_hold(
    draft: Draft,
    document: Json,
    s: String,
    receipt: SemanticDocumentationReceipt,
    output: ValidatorOutput,
    variable: Variable,
    error: RunError,
)
    ensures
        draft@.format_version == draft.format_version,
        draft@.repository == draft.repository@,
        draft@.revision == draft.revision@,
        draft@.tally == draft.counts@,
        RunState::AwaitingInput@ is AwaitingInput,
        (RunState::AwaitingRevision { document })@ == (Stage::AwaitingRevision {
            document: document@,
        }),
        (RunState::AwaitingRepository { document, revision: s })@ == (Stage::AwaitingRepository {
            document: document@,
            revision: s@,
        }),
        (RunState::AwaitingGraphWrite { draft, trig: s })@ == (Stage::AwaitingGraphWrite {
            draft: draft@,
            trig: s@,
        }),
        (RunState::AwaitingValidation { draft, validator: s })@ == (Stage::AwaitingValidation {
            draft: draft@,
            validator: s@,
        }),
        (RunState::AwaitingReceiptWrite { receipt })@ == (Stage::AwaitingReceiptWrite {
            receipt: receipt@,
        }),
        (RunState::Finished { receipt })@ == (Stage::Finished { receipt: receipt@ }),
        RunState::Failed@ is Failed,
        RunEvent::Input(s)@ == Occurrence::Input(s@),
        RunEvent::Variable(Some(s))@ == Occurrence::Variable(Some(s@)),
        RunEvent::Variable(None)@ == Occurrence::Variable(None),
        RunEvent::GraphWritten@ is GraphWritten,
        RunEvent::Validated(output)@ == Occurrence::Validated(output@),
        RunEvent::ReceiptWritten@ is ReceiptWritten,
        RunAction::ReadVariable(variable)@ == Task::ReadVariable(variable),
        RunAction::WriteGraph@ is WriteGraph,
        RunAction::Validate@ is Validate,
        RunAction::WriteReceipt(s)@ == Task::WriteReceipt(s@),
        RunAction::Succeed@ is Succeed,
        RunAction::Fail(error)@ == Task::Fail(error@),
        RunError::InvalidJson(s)@ == Failure::InvalidJson(s@),
        RunError::MissingRevision@ is MissingRevision,
        RunError::MissingRepository@ is MissingRepository,
{
}

/// A run waits at each stage for one kind of event: for what its last task brings.
pub proof fn law_run_waits_for_its_task(options: OptionsRecord, world: World, i: int)
    requires
        0 <= i < run_steps(options, world).len() - 1,
    ensures
        awaits(run_steps(options, world)[i].0, done(world, run_steps(options, world)[i].1)),
        run_steps(options, world)[i + 1] == next(
            options,
            run_steps(options, world)[i].0,
            done(world, run_steps(options, world)[i].1),
        ),
{
    lemma_waits(
        options,
        world,
        Stage::AwaitingInput,
        Occurrence::Input(world.input),
        i,
    );
}

proof fn lemma_waits(
    options: OptionsRecord,
    world: World,
    stage: Stage,
    occurrence: Occurrence,
    i: int,
)
    requires
        awaits(stage, occurrence),
        0 <= i < steps_from(options, world, stage, occurrence).len() - 1,
    ensures
        ({
            let steps = steps_from(options, world, stage, occurrence);
            &&& awaits(steps[i].0, done(world, steps[i].1))
            &&& steps[i + 1] == next(options, steps[i].0, done(world, steps[i].1))
        }),
    decreases steps_left(stage),
{
    let after = next(options, stage, occurrence);
    law_run_ends(options, stage, occurrence);
    let rest = steps_from(options, world, after.0, done(world, after.1));
    let steps = steps_from(options, world, stage, occurrence);
    assert(steps == seq![after] + rest);
    assert(awaits(after.0, done(world, after.1)));
    if i == 0 {
        lemma_steps_from(options, world, after.0, done(world, after.1));
        assert(rest[0] == next(options, after.0, done(world, after.1)));
        assert(steps[1] == rest[0]);
    } else {
        lemma_waits(options, world, after.0, done(world, after.1), i - 1);
        assert(steps[i] == rest[i - 1]);
        assert(steps[i + 1] == rest[i]);
    }
}

/// Each kind of event is awaited at the stages that it belongs to, and only there.
pub proof fn law_what_is_awaited(stage: Stage, occurrence: Occurrence)
    ensures
        awaits(stage, occurrence) <==> {
            ||| stage is AwaitingInput && occurrence is Input
            ||| (stage is AwaitingRevision || stage is AwaitingRepository) && occurrence is Variable
            ||| stage is AwaitingGraphWrite && occurrence is GraphWritten
            ||| stage is AwaitingValidation && occurrence is Validated
            ||| stage is AwaitingReceiptWrite && occurrence is ReceiptWritten
        },
{
}

} // verus!
