//! The typed command outcome: classes, stable exit codes, diagnostics, and
//! the resolution of a command result from its diagnostics and coverage.

use vstd::prelude::*;
use crate::diagnostic_json::{diagnostic_json, diagnostic_text};
use crate::domain::{NativePath, PathText};
use crate::sorting::{items_of, keyed, sort_by_key, spec_insert, spec_sort_by_key};
use crate::text::{compare_strings, owned};

verus! {

pub const COMMAND_RESULT_SCHEMA: &'static str = "optiflow.command-result.v1";

/// An opaque JSON document carried as a command's domain result.
#[verifier::external_type_specification]
#[verifier::external_body]
pub struct ExJsonValue(serde_json::Value);

#[derive(Debug, Clone, Copy, PartialEq, Eq, Structural)]
pub enum CommandOutcomeClass {
    Success,
    InternalFailure,
    InvalidInput,
    PartialSuccess,
    CapabilityUnavailable,
    StaleState,
    Interrupted,
    Terminated,
}

#[derive(Debug, Clone, Copy, PartialEq, Eq, Structural)]
pub enum ProcessExitCode {
    Success,
    InternalFailure,
    InvalidInput,
    PartialSuccess,
    CapabilityUnavailable,
    StaleState,
    InterruptedBySigint,
    InterruptedBySigterm,
}

/// The exit code that belongs to each outcome class.
pub open spec fn spec_exit_code(class: CommandOutcomeClass) -> ProcessExitCode {
    match class {
        CommandOutcomeClass::Success => ProcessExitCode::Success,
        CommandOutcomeClass::InternalFailure => ProcessExitCode::InternalFailure,
        CommandOutcomeClass::InvalidInput => ProcessExitCode::InvalidInput,
        CommandOutcomeClass::PartialSuccess => ProcessExitCode::PartialSuccess,
        CommandOutcomeClass::CapabilityUnavailable => ProcessExitCode::CapabilityUnavailable,
        CommandOutcomeClass::StaleState => ProcessExitCode::StaleState,
        CommandOutcomeClass::Interrupted => ProcessExitCode::InterruptedBySigint,
        CommandOutcomeClass::Terminated => ProcessExitCode::InterruptedBySigterm,
    }
}

/// The process status number of each exit code.
pub open spec fn spec_exit_number(code: ProcessExitCode) -> u8 {
    match code {
        ProcessExitCode::Success => 0,
        ProcessExitCode::InternalFailure => 1,
        ProcessExitCode::InvalidInput => 2,
        ProcessExitCode::PartialSuccess => 3,
        ProcessExitCode::CapabilityUnavailable => 4,
        ProcessExitCode::StaleState => 5,
        ProcessExitCode::InterruptedBySigint => 130,
        ProcessExitCode::InterruptedBySigterm => 143,
    }
}

impl CommandOutcomeClass {
    pub fn exit_code(self) -> (code: ProcessExitCode)
        ensures
            code == spec_exit_code(self),
    {
        match self {
            CommandOutcomeClass::Success => ProcessExitCode::Success,
            CommandOutcomeClass::InternalFailure => ProcessExitCode::InternalFailure,
            CommandOutcomeClass::InvalidInput => ProcessExitCode::InvalidInput,
            CommandOutcomeClass::PartialSuccess => ProcessExitCode::PartialSuccess,
            CommandOutcomeClass::CapabilityUnavailable => ProcessExitCode::CapabilityUnavailable,
            CommandOutcomeClass::StaleState => ProcessExitCode::StaleState,
            CommandOutcomeClass::Interrupted => ProcessExitCode::InterruptedBySigint,
            CommandOutcomeClass::Terminated => ProcessExitCode::InterruptedBySigterm,
        }
    }
}

impl ProcessExitCode {
    pub fn get(self) -> (n: u8)
        ensures
            n == spec_exit_number(self),
    {
        match self {
            ProcessExitCode::Success => 0,
            ProcessExitCode::InternalFailure => 1,
            ProcessExitCode::InvalidInput => 2,
            ProcessExitCode::PartialSuccess => 3,
            ProcessExitCode::CapabilityUnavailable => 4,
            ProcessExitCode::StaleState => 5,
            ProcessExitCode::InterruptedBySigint => 130,
            ProcessExitCode::InterruptedBySigterm => 143,
        }
    }

    /// The exit code of a process status number, if it is one of the
    /// stable codes.
    pub fn from_number(n: u8) -> (code: Option<ProcessExitCode>)
        ensures
            code matches Some(c) ==> spec_exit_number(c) == n,
            code is None <==> !(n <= 5 || n == 130 || n == 143),
    {
        match n {
            0 => Some(ProcessExitCode::Success),
            1 => Some(ProcessExitCode::InternalFailure),
            2 => Some(ProcessExitCode::InvalidInput),
            3 => Some(ProcessExitCode::PartialSuccess),
            4 => Some(ProcessExitCode::CapabilityUnavailable),
            5 => Some(ProcessExitCode::StaleState),
            130 => Some(ProcessExitCode::InterruptedBySigint),
            143 => Some(ProcessExitCode::InterruptedBySigterm),
            _ => None,
        }
    }
}

/// Distinct outcome classes exit with distinct status numbers, and reading a
/// class's status number back gives the class's exit code.
pub proof fn lemma_exit_codes_distinct(a: CommandOutcomeClass, b: CommandOutcomeClass)
    ensures
        a != b ==> spec_exit_number(spec_exit_code(a)) != spec_exit_number(spec_exit_code(b)),
{
}

#[derive(Debug, Clone, Copy, PartialEq, Eq, Structural)]
pub enum CoverageStatus {
    Complete,
    Partial,
}

#[derive(Debug, Clone, Copy, PartialEq, Eq, PartialOrd, Ord, Structural)]
pub enum DiagnosticSeverity {
    Information,
    Warning,
    Error,
    Fatal,
}

#[derive(Debug, Clone, Copy, PartialEq, Eq, PartialOrd, Ord, Structural)]
pub enum DiagnosticClassification {
    Input,
    Capability,
    Coverage,
    Observation,
    State,
    Artifact,
    Interruption,
    Internal,
}

#[derive(Debug, Clone, Copy, PartialEq, Eq, PartialOrd, Ord, Structural)]
pub enum DiagnosticImpact {
    NoImpact,
    DegradesCoverage,
    BlocksCommand,
}

#[derive(Debug, Clone, Copy, PartialEq, Eq, PartialOrd, Ord, Structural)]
pub enum DiagnosticCode {
    InvalidInvocation,
    InvalidCommandInput,
    RequiredCapabilityUnavailable,
    OptionalCapabilityUnavailable,
    PartialInventory,
    SourceRunPartial,
    SourceRunInterrupted,
    StoredRunNotFound,
    StoredStateIncompatible,
    StaleEvidencePreventsOperation,
    ArtifactValidationFailed,
    ArtifactCommitFailed,
    StateTransactionFailed,
    InternalInvariantViolated,
    OperationInterrupted,
    OperationTerminated,
    StructuredOutputFailed,
    OutputDestinationInvalid,
    ResultProducedWithExclusions,
    ConfigurationNotFound,
    ConfigurationUnreadable,
    ConfigurationNotRegularFile,
    ConfigurationParseFailed,
    ConfigurationSchemaMissing,
    ConfigurationSchemaUnsupported,
    ConfigurationUnknownKey,
    ConfigurationValueInvalid,
    ConfigurationValueOutOfRange,
    ConfigurationConflict,
    ConfigurationSelectorConflict,
    ConfigurationEnvironmentInvalid,
    ConfigurationPathResolutionFailed,
    ConfigurationDiscoveryFailed,
    ConfigurationSourceReplacedDuringRead,
    ConfigurationOverrideShadowed,
    ConfigurationDeprecatedKey,
    ConfigurationLockedInvariant,
    EffectivePolicyInvalid,
    EffectivePolicySerializationFailed,
    EffectivePolicyFingerprintMismatch,
    HistoricalPolicyUnknown,
    SourcePolicyDiffers,
    ConfigurationSettingUnknown,
}

#[derive(Debug, Clone, Default, PartialEq, Eq)]
pub struct DiagnosticContext {
    pub path: Option<NativePath>,
    pub run_id: Option<String>,
    pub artifact_kind: Option<String>,
    pub os_error_kind: Option<String>,
    pub count: Option<u64>,
    pub setting: Option<String>,
    pub environment_variable: Option<String>,
    pub line: Option<u64>,
    pub column: Option<u64>,
}

#[derive(Debug, Clone, PartialEq, Eq)]
pub struct Diagnostic {
    pub code: DiagnosticCode,
    pub severity: DiagnosticSeverity,
    pub classification: DiagnosticClassification,
    pub impact: DiagnosticImpact,
    pub message: String,
    pub context: DiagnosticContext,
    pub retryable: Option<bool>,
}

pub open spec fn opt_text(o: Option<String>) -> Option<Seq<char>> {
    match o {
        Some(s) => Some(s@),
        None => None,
    }
}

pub open spec fn opt_path(o: Option<NativePath>) -> Option<PathText> {
    match o {
        Some(p) => Some(p@),
        None => None,
    }
}

/// Two diagnostics agree in everything but their occurrence count.
pub open spec fn same_except_count(a: Diagnostic, b: Diagnostic) -> bool {
    &&& a.code == b.code
    &&& a.severity == b.severity
    &&& a.classification == b.classification
    &&& a.impact == b.impact
    &&& a.message@ == b.message@
    &&& a.retryable == b.retryable
    &&& opt_path(a.context.path) == opt_path(b.context.path)
    &&& opt_text(a.context.run_id) == opt_text(b.context.run_id)
    &&& opt_text(a.context.artifact_kind) == opt_text(b.context.artifact_kind)
    &&& opt_text(a.context.os_error_kind) == opt_text(b.context.os_error_kind)
    &&& opt_text(a.context.setting) == opt_text(b.context.setting)
    &&& opt_text(a.context.environment_variable) == opt_text(b.context.environment_variable)
    &&& a.context.line == b.context.line
    &&& a.context.column == b.context.column
}

/// The number of occurrences a diagnostic stands for (1 when unset).
pub open spec fn occurrences(d: Diagnostic) -> u64 {
    match d.context.count {
        Some(n) => n,
        None => 1,
    }
}

pub open spec fn with_count(d: Diagnostic, n: u64) -> Diagnostic {
    Diagnostic { context: DiagnosticContext { count: Some(n), ..d.context }, ..d }
}

pub open spec fn saturating_sum(a: u64, b: u64) -> u64 {
    if a + b > u64::MAX { u64::MAX } else { (a + b) as u64 }
}

/// Adjacent diagnostics that differ only in their count merge into one whose
/// count is the saturating sum of their occurrences.
pub open spec fn spec_coalesce(s: Seq<Diagnostic>) -> Seq<Diagnostic>
    decreases s.len(),
{
    if s.len() == 0 {
        seq![]
    } else {
        let c = spec_coalesce(s.drop_last());
        if c.len() > 0 && same_except_count(c.last(), s.last()) {
            c.drop_last().push(
                with_count(c.last(), saturating_sum(occurrences(c.last()), occurrences(s.last()))),
            )
        } else {
            c.push(s.last())
        }
    }
}

fn same_text(a: &Option<String>, b: &Option<String>) -> (r: bool)
    ensures
        r == (opt_text(*a) == opt_text(*b)),
{
    match (a, b) {
        (Some(x), Some(y)) => compare_strings(x.as_str(), y.as_str()) == 0,
        (None, None) => true,
        _ => false,
    }
}

fn same_path(a: &Option<NativePath>, b: &Option<NativePath>) -> (r: bool)
    ensures
        r == (opt_path(*a) == opt_path(*b)),
{
    match (a, b) {
        (Some(x), Some(y)) => x.same(y),
        (None, None) => true,
        _ => false,
    }
}

fn same_number(a: Option<u64>, b: Option<u64>) -> (r: bool)
    ensures
        r == (a == b),
{
    match (a, b) {
        (Some(x), Some(y)) => x == y,
        (None, None) => true,
        _ => false,
    }
}

fn same_flag(a: Option<bool>, b: Option<bool>) -> (r: bool)
    ensures
        r == (a == b),
{
    match (a, b) {
        (Some(x), Some(y)) => x == y,
        (None, None) => true,
        _ => false,
    }
}

/// Whether two diagnostics agree in everything but their occurrence count.
fn equivalent_except_count(left: &Diagnostic, right: &Diagnostic) -> (r: bool)
    ensures
        r == same_except_count(*left, *right),
{
    left.code == right.code && left.severity == right.severity
        && left.classification == right.classification && left.impact == right.impact
        && compare_strings(left.message.as_str(), right.message.as_str()) == 0 && same_flag(left.retryable, right.retryable)
        && same_path(&left.context.path, &right.context.path)
        && same_text(&left.context.run_id, &right.context.run_id)
        && same_text(&left.context.artifact_kind, &right.context.artifact_kind)
        && same_text(&left.context.os_error_kind, &right.context.os_error_kind)
        && same_text(&left.context.setting, &right.context.setting)
        && same_text(&left.context.environment_variable, &right.context.environment_variable)
        && same_number(left.context.line, right.context.line)
        && same_number(left.context.column, right.context.column)
}

/// Merges adjacent diagnostics that differ only in their count.
fn coalesce_diagnostics(diagnostics: Vec<Diagnostic>) -> (r: Vec<Diagnostic>)
    ensures
        r@ == spec_coalesce(diagnostics@),
{
    let ghost input = diagnostics@;
    let mut rest = diagnostics;
    let mut reversed: Vec<Diagnostic> = Vec::new();
    while rest.len() > 0
        invariant
            rest@.len() + reversed@.len() == input.len(),
            rest@ == input.take(rest@.len() as int),
            forall|j: int| 0 <= j < reversed@.len() ==> reversed@[j] == input[input.len() - 1 - j],
        decreases rest@.len(),
    {
        let d = rest.pop().unwrap();
        proof {
            assert(rest@ =~= input.take(rest@.len() as int));
        }
        reversed.push(d);
    }
    let n = reversed.len();
    let mut coalesced: Vec<Diagnostic> = Vec::new();
    let mut k: usize = 0;
    while k < n
        invariant
            n == input.len(),
            k <= n,
            reversed@.len() == n - k,
            forall|j: int| 0 <= j < reversed@.len() ==> reversed@[j] == input[input.len() - 1 - j],
            coalesced@ == spec_coalesce(input.take(k as int)),
        decreases n - k,
    {
        let d = reversed.pop().unwrap();
        proof {
            assert(input.take(k + 1).drop_last() =~= input.take(k as int));
            assert(input.take(k + 1).last() == d);
        }
        let m = coalesced.len();
        if m > 0 && equivalent_except_count(&coalesced[m - 1], &d) {
            let mut previous = coalesced.pop().unwrap();
            let a: u64 = match previous.context.count {
                Some(c) => c,
                None => 1,
            };
            let b: u64 = match d.context.count {
                Some(c) => c,
                None => 1,
            };
            let total = a.saturating_add(b);
            previous.context.count = Some(total);
            coalesced.push(previous);
        } else {
            coalesced.push(d);
        }
        k = k + 1;
    }
    assert(input.take(n as int) =~= input);
    coalesced
}

impl Diagnostic {
    pub fn new(
        code: DiagnosticCode,
        severity: DiagnosticSeverity,
        classification: DiagnosticClassification,
        impact: DiagnosticImpact,
        message: String,
    ) -> (d: Diagnostic)
        ensures
            d.code == code,
            d.severity == severity,
            d.classification == classification,
            d.impact == impact,
            d.message == message,
            d.context == empty_context(),
            d.retryable is None,
    {
        Diagnostic {
            code,
            severity,
            classification,
            impact,
            message,
            context: DiagnosticContext {
                path: None,
                run_id: None,
                artifact_kind: None,
                os_error_kind: None,
                count: None,
                setting: None,
                environment_variable: None,
                line: None,
                column: None,
            },
            retryable: None,
        }
    }

    /// Attaches the raw bytes of a path to the diagnostic's context.
    pub fn with_path(self, path: &[u8]) -> (d: Diagnostic)
        ensures
            d == (Diagnostic {
                context: DiagnosticContext { path: Some(d.context.path.unwrap()), ..self.context },
                ..self
            }),
            d.context.path matches Some(p) && p@ == crate::domain::path_of_bytes(path@),
    {
        let mut d = self;
        d.context.path = Some(NativePath::from_path(path));
        d
    }

    pub fn with_run_id(self, run_id: String) -> (d: Diagnostic)
        ensures
            d == (Diagnostic {
                context: DiagnosticContext { run_id: Some(run_id), ..self.context },
                ..self
            }),
    {
        let mut d = self;
        d.context.run_id = Some(run_id);
        d
    }
}

pub open spec fn empty_context() -> DiagnosticContext {
    DiagnosticContext {
        path: None,
        run_id: None,
        artifact_kind: None,
        os_error_kind: None,
        count: None,
        setting: None,
        environment_variable: None,
        line: None,
        column: None,
    }
}

#[derive(Debug, Clone, PartialEq, Eq)]
pub struct ArtifactReference {
    pub kind: String,
    pub schema: String,
    pub run_id: Option<String>,
    pub path: NativePath,
}

#[derive(Debug, Clone, Copy, PartialEq, Eq, Structural)]
pub struct Outcome {
    pub class: CommandOutcomeClass,
    pub exit_code: ProcessExitCode,
}

#[derive(Debug, Clone, Copy, PartialEq, Eq, Structural)]
pub struct Coverage {
    pub status: CoverageStatus,
}

#[derive(Debug, Clone)]
pub struct CommandResult {
    pub schema: String,
    pub command: String,
    pub outcome: Outcome,
    pub coverage: Option<Coverage>,
    pub artifacts: Vec<ArtifactReference>,
    pub diagnostics: Vec<Diagnostic>,
    pub result: Option<serde_json::Value>,
}

pub open spec fn has_code(ds: Seq<Diagnostic>, code: DiagnosticCode) -> bool {
    exists|i: int| 0 <= i < ds.len() && (#[trigger] ds[i]).code == code
}

pub open spec fn blocking(ds: Seq<Diagnostic>, classification: DiagnosticClassification) -> bool {
    exists|i: int|
        0 <= i < ds.len() && (#[trigger] ds[i]).classification == classification
            && ds[i].impact == DiagnosticImpact::BlocksCommand
}

pub open spec fn degrades(ds: Seq<Diagnostic>) -> bool {
    exists|i: int| 0 <= i < ds.len() && (#[trigger] ds[i]).impact == DiagnosticImpact::DegradesCoverage
}

/// The outcome class of a command: signals first, then blocking
/// diagnostics by classification, then reduced coverage, then success.
pub open spec fn spec_resolve_class(
    coverage: Option<CoverageStatus>,
    has_artifacts: bool,
    ds: Seq<Diagnostic>,
    has_result: bool,
) -> CommandOutcomeClass {
    if has_code(ds, DiagnosticCode::OperationInterrupted) {
        CommandOutcomeClass::Interrupted
    } else if has_code(ds, DiagnosticCode::OperationTerminated) {
        CommandOutcomeClass::Terminated
    } else if blocking(ds, DiagnosticClassification::Internal) || blocking(ds, DiagnosticClassification::Artifact) {
        CommandOutcomeClass::InternalFailure
    } else if blocking(ds, DiagnosticClassification::State) {
        CommandOutcomeClass::StaleState
    } else if blocking(ds, DiagnosticClassification::Capability) {
        CommandOutcomeClass::CapabilityUnavailable
    } else if blocking(ds, DiagnosticClassification::Input) {
        CommandOutcomeClass::InvalidInput
    } else if coverage == Some(CoverageStatus::Partial) || degrades(ds) {
        if !has_artifacts && !has_result {
            CommandOutcomeClass::InternalFailure
        } else {
            CommandOutcomeClass::PartialSuccess
        }
    } else {
        CommandOutcomeClass::Success
    }
}

/// Reduced coverage is never reported as success: when coverage is partial
/// or some diagnostic degrades coverage, the command is not a success;
/// and when, besides, no signal was recorded and no diagnostic blocks the
/// command, it is a partial success if it produced a result or an
/// artifact, and an internal failure if it produced nothing.
pub proof fn lemma_reduced_coverage_is_never_success(
    coverage: Option<CoverageStatus>,
    has_artifacts: bool,
    ds: Seq<Diagnostic>,
    has_result: bool,
)
    requires
        coverage == Some(CoverageStatus::Partial)
            || exists|i: int| 0 <= i < ds.len() && (#[trigger] ds[i]).impact == DiagnosticImpact::DegradesCoverage,
    ensures
        spec_resolve_class(coverage, has_artifacts, ds, has_result) != CommandOutcomeClass::Success,
        (forall|k: int| 0 <= k < ds.len() ==> {
            &&& (#[trigger] ds[k]).impact != DiagnosticImpact::BlocksCommand
            &&& ds[k].code != DiagnosticCode::OperationInterrupted
            &&& ds[k].code != DiagnosticCode::OperationTerminated
        }) ==> spec_resolve_class(coverage, has_artifacts, ds, has_result) == (if has_artifacts || has_result {
            CommandOutcomeClass::PartialSuccess
        } else {
            CommandOutcomeClass::InternalFailure
        }),
{
}

/// Signals decide first: a recorded interruption makes the command
/// interrupted, and otherwise a recorded termination makes it terminated,
/// whatever else was diagnosed.
pub proof fn lemma_signals_decide_first(
    coverage: Option<CoverageStatus>,
    has_artifacts: bool,
    ds: Seq<Diagnostic>,
    has_result: bool,
    i: int,
)
    requires
        0 <= i < ds.len(),
    ensures
        ds[i].code == DiagnosticCode::OperationInterrupted
            ==> spec_resolve_class(coverage, has_artifacts, ds, has_result) == CommandOutcomeClass::Interrupted,
        ds[i].code == DiagnosticCode::OperationTerminated
            && (forall|k: int| 0 <= k < ds.len() ==> (#[trigger] ds[k]).code != DiagnosticCode::OperationInterrupted)
            ==> spec_resolve_class(coverage, has_artifacts, ds, has_result) == CommandOutcomeClass::Terminated,
{
}

/// A diagnostic that blocks the command for its input, a capability,
/// stored state, an artifact or an internal fault rules out every kind of
/// success.
pub proof fn lemma_blocked_command_never_succeeds(
    coverage: Option<CoverageStatus>,
    has_artifacts: bool,
    ds: Seq<Diagnostic>,
    has_result: bool,
    i: int,
)
    requires
        0 <= i < ds.len(),
        ds[i].impact == DiagnosticImpact::BlocksCommand,
        ds[i].classification != DiagnosticClassification::Coverage,
        ds[i].classification != DiagnosticClassification::Observation,
        ds[i].classification != DiagnosticClassification::Interruption,
    ensures
        spec_resolve_class(coverage, has_artifacts, ds, has_result) != CommandOutcomeClass::Success,
        spec_resolve_class(coverage, has_artifacts, ds, has_result) != CommandOutcomeClass::PartialSuccess,
{
    assert(ds[i].classification == DiagnosticClassification::Internal
        || ds[i].classification == DiagnosticClassification::Artifact
        || ds[i].classification == DiagnosticClassification::State
        || ds[i].classification == DiagnosticClassification::Capability
        || ds[i].classification == DiagnosticClassification::Input);
}

/// A command with complete or undeclared coverage, no signal and no
/// diagnostic that blocks it or degrades its coverage is a success, and
/// exits with status zero.
pub proof fn lemma_clean_command_succeeds(
    coverage: Option<CoverageStatus>,
    has_artifacts: bool,
    ds: Seq<Diagnostic>,
    has_result: bool,
)
    requires
        coverage != Some(CoverageStatus::Partial),
        forall|k: int| 0 <= k < ds.len() ==> {
            &&& (#[trigger] ds[k]).impact != DiagnosticImpact::BlocksCommand
            &&& ds[k].impact != DiagnosticImpact::DegradesCoverage
            &&& ds[k].code != DiagnosticCode::OperationInterrupted
            &&& ds[k].code != DiagnosticCode::OperationTerminated
        },
    ensures
        spec_resolve_class(coverage, has_artifacts, ds, has_result) == CommandOutcomeClass::Success,
        spec_exit_number(spec_exit_code(spec_resolve_class(coverage, has_artifacts, ds, has_result))) == 0,
{
}

fn any_code(ds: &Vec<Diagnostic>, code: DiagnosticCode) -> (r: bool)
    ensures
        r == has_code(ds@, code),
{
    let n = ds.len();
    let mut i: usize = 0;
    while i < n
        invariant
            n == ds@.len(),
            i <= n,
            forall|k: int| 0 <= k < i ==> (#[trigger] ds@[k]).code != code,
        decreases n - i,
    {
        if ds[i].code == code {
            return true;
        }
        i = i + 1;
    }
    false
}

fn any_blocking(ds: &Vec<Diagnostic>, classification: DiagnosticClassification) -> (r: bool)
    ensures
        r == blocking(ds@, classification),
{
    let n = ds.len();
    let mut i: usize = 0;
    while i < n
        invariant
            n == ds@.len(),
            i <= n,
            forall|k: int| 0 <= k < i ==> !((#[trigger] ds@[k]).classification == classification
                && ds@[k].impact == DiagnosticImpact::BlocksCommand),
        decreases n - i,
    {
        if ds[i].classification == classification && ds[i].impact == DiagnosticImpact::BlocksCommand {
            return true;
        }
        i = i + 1;
    }
    false
}

fn any_degrading(ds: &Vec<Diagnostic>) -> (r: bool)
    ensures
        r == degrades(ds@),
{
    let n = ds.len();
    let mut i: usize = 0;
    while i < n
        invariant
            n == ds@.len(),
            i <= n,
            forall|k: int| 0 <= k < i ==> (#[trigger] ds@[k]).impact != DiagnosticImpact::DegradesCoverage,
        decreases n - i,
    {
        if ds[i].impact == DiagnosticImpact::DegradesCoverage {
            return true;
        }
        i = i + 1;
    }
    false
}

fn resolve_class(
    coverage: Option<CoverageStatus>,
    has_artifacts: bool,
    diagnostics: &Vec<Diagnostic>,
    has_result: bool,
) -> (class: CommandOutcomeClass)
    ensures
        class == spec_resolve_class(coverage, has_artifacts, diagnostics@, has_result),
{
    if any_code(diagnostics, DiagnosticCode::OperationInterrupted) {
        return CommandOutcomeClass::Interrupted;
    }
    if any_code(diagnostics, DiagnosticCode::OperationTerminated) {
        return CommandOutcomeClass::Terminated;
    }
    if any_blocking(diagnostics, DiagnosticClassification::Internal)
        || any_blocking(diagnostics, DiagnosticClassification::Artifact) {
        return CommandOutcomeClass::InternalFailure;
    }
    if any_blocking(diagnostics, DiagnosticClassification::State) {
        return CommandOutcomeClass::StaleState;
    }
    if any_blocking(diagnostics, DiagnosticClassification::Capability) {
        return CommandOutcomeClass::CapabilityUnavailable;
    }
    if any_blocking(diagnostics, DiagnosticClassification::Input) {
        return CommandOutcomeClass::InvalidInput;
    }
    let partial = match coverage {
        Some(CoverageStatus::Partial) => true,
        _ => false,
    };
    if partial || any_degrading(diagnostics) {
        if !has_artifacts && !has_result {
            return CommandOutcomeClass::InternalFailure;
        }
        return CommandOutcomeClass::PartialSuccess;
    }
    CommandOutcomeClass::Success
}

/// Why a command result is inconsistent, if it is.
pub enum ResultInconsistency {
    Schema,
    ExitCode,
    PartialCoverageSuccess,
    EmptyPartialSuccess,
}

pub open spec fn spec_inconsistency(r: CommandResult) -> Option<ResultInconsistency> {
    if r.schema@ != COMMAND_RESULT_SCHEMA@ {
        Some(ResultInconsistency::Schema)
    } else if r.outcome.exit_code != spec_exit_code(r.outcome.class) {
        Some(ResultInconsistency::ExitCode)
    } else if r.outcome.class == CommandOutcomeClass::Success
        && r.coverage == Some(Coverage { status: CoverageStatus::Partial }) {
        Some(ResultInconsistency::PartialCoverageSuccess)
    } else if r.outcome.class == CommandOutcomeClass::PartialSuccess && r.artifacts@.len() == 0
        && r.result is None {
        Some(ResultInconsistency::EmptyPartialSuccess)
    } else {
        None
    }
}

pub open spec fn inconsistency_message(i: ResultInconsistency) -> Seq<char> {
    match i {
        ResultInconsistency::Schema => "command-result schema identifier is inconsistent"@,
        ResultInconsistency::ExitCode => "declared exit code does not match the outcome class"@,
        ResultInconsistency::PartialCoverageSuccess => "success cannot declare partial coverage"@,
        ResultInconsistency::EmptyPartialSuccess => "partial success requires a valid result or committed artifact"@,
    }
}

/// The result that reports a violated internal invariant.
pub open spec fn is_internal_failure(r: CommandResult, command: Seq<char>, message: Seq<char>) -> bool {
    &&& r.schema@ == COMMAND_RESULT_SCHEMA@
    &&& r.command@ == command
    &&& r.outcome == (Outcome {
        class: CommandOutcomeClass::InternalFailure,
        exit_code: ProcessExitCode::InternalFailure,
    })
    &&& r.coverage is None
    &&& r.artifacts@.len() == 0
    &&& r.diagnostics@.len() == 1
    &&& r.diagnostics@[0].code == DiagnosticCode::InternalInvariantViolated
    &&& r.diagnostics@[0].severity == DiagnosticSeverity::Fatal
    &&& r.diagnostics@[0].classification == DiagnosticClassification::Internal
    &&& r.diagnostics@[0].impact == DiagnosticImpact::BlocksCommand
    &&& r.diagnostics@[0].message@ == message
    &&& r.diagnostics@[0].context == empty_context()
    &&& r.diagnostics@[0].retryable is None
    &&& r.result is None
}

/// Each diagnostic paired with its canonical JSON text.
pub open spec fn json_keyed(ds: Seq<Diagnostic>) -> Seq<(Seq<char>, Diagnostic)> {
    Seq::new(ds.len(), |i: int| (diagnostic_json(ds[i]), ds[i]))
}

impl CommandResult {
    /// Builds the result of a command: diagnostics are put in the order of
    /// their canonical JSON texts and coalesced, and the outcome class
    /// follows from the diagnostics, the coverage and whether anything was
    /// produced.
    pub fn resolve(
        command: String,
        coverage: Option<CoverageStatus>,
        artifacts: Vec<ArtifactReference>,
        diagnostics: Vec<Diagnostic>,
        result: Option<serde_json::Value>,
    ) -> (r: CommandResult)
        ensures
            r.schema@ == COMMAND_RESULT_SCHEMA@,
            r.command == command,
            r.diagnostics@ == spec_coalesce(items_of(spec_sort_by_key(json_keyed(diagnostics@)))),
            r.outcome.class == spec_resolve_class(coverage, artifacts@.len() > 0, r.diagnostics@, result is Some),
            r.outcome.exit_code == spec_exit_code(r.outcome.class),
            r.coverage == (match coverage { Some(s) => Some(Coverage { status: s }), None => None }),
            r.artifacts == artifacts,
            r.result == result,
            spec_inconsistency(r) is None,
    {
        let mut sort_keys: Vec<String> = Vec::new();
        let mut i: usize = 0;
        while i < diagnostics.len()
            invariant
                i <= diagnostics@.len(),
                sort_keys@.len() == i,
                forall|q: int| 0 <= q < i ==> (#[trigger] sort_keys@[q])@ == diagnostic_json(diagnostics@[q]),
            decreases diagnostics@.len() - i,
        {
            sort_keys.push(diagnostic_text(&diagnostics[i]));
            i = i + 1;
        }
        assert(keyed(sort_keys@, diagnostics@) =~= json_keyed(diagnostics@));
        let sorted = sort_by_key(diagnostics, sort_keys);
        let diagnostics = coalesce_diagnostics(sorted);
        let class = resolve_class(coverage, artifacts.len() > 0, &diagnostics, result.is_some());
        let resolved = CommandResult {
            schema: owned(COMMAND_RESULT_SCHEMA),
            command,
            outcome: Outcome { class, exit_code: class.exit_code() },
            coverage: match coverage {
                Some(status) => Some(Coverage { status }),
                None => None,
            },
            artifacts,
            diagnostics,
            result,
        };
        proof {
            assert(spec_inconsistency(resolved) is None);
        }
        resolved
    }

    /// A failed command carrying one diagnostic.
    pub fn failure(command: String, diagnostic: Diagnostic) -> (r: CommandResult)
        ensures
            r.command == command,
            r.diagnostics@ == seq![diagnostic],
            r.outcome.class == spec_resolve_class(None, false, seq![diagnostic], false),
            r.outcome.exit_code == spec_exit_code(r.outcome.class),
            r.coverage is None,
            r.artifacts@.len() == 0,
            r.result is None,
            spec_inconsistency(r) is None,
    {
        let ghost d = diagnostic;
        let mut diagnostics: Vec<Diagnostic> = Vec::new();
        diagnostics.push(diagnostic);
        let r = Self::resolve(command, None, Vec::new(), diagnostics, None);
        proof {
            let k = json_keyed(seq![d]);
            assert(k =~= seq![(diagnostic_json(d), d)]);
            assert(k.drop_last() =~= Seq::<(Seq<char>, Diagnostic)>::empty());
            assert(spec_sort_by_key(k.drop_last()) =~= Seq::<(Seq<char>, Diagnostic)>::empty());
            assert(spec_insert(Seq::<(Seq<char>, Diagnostic)>::empty(), k.last()) =~= seq![k.last()]);
            assert(spec_sort_by_key(k) =~= seq![(diagnostic_json(d), d)]);
            assert(items_of(spec_sort_by_key(k)) =~= seq![d]);
            assert(seq![d].drop_last() =~= Seq::<Diagnostic>::empty());
            assert(spec_coalesce(seq![d].drop_last()) =~= Seq::<Diagnostic>::empty());
            assert(spec_coalesce(seq![d]) =~= seq![d]);
        }
        r
    }

    /// The result that reports a violated internal invariant.
    pub fn internal_failure(command: String, message: String) -> (r: CommandResult)
        ensures
            is_internal_failure(r, command@, message@),
            spec_inconsistency(r) is None,
    {
        let diagnostic = Diagnostic::new(
            DiagnosticCode::InternalInvariantViolated,
            DiagnosticSeverity::Fatal,
            DiagnosticClassification::Internal,
            DiagnosticImpact::BlocksCommand,
            message,
        );
        let mut diagnostics: Vec<Diagnostic> = Vec::new();
        diagnostics.push(diagnostic);
        CommandResult {
            schema: owned(COMMAND_RESULT_SCHEMA),
            command,
            outcome: Outcome {
                class: CommandOutcomeClass::InternalFailure,
                exit_code: ProcessExitCode::InternalFailure,
            },
            coverage: None,
            artifacts: Vec::new(),
            diagnostics,
            result: None,
        }
    }

    /// Checks the envelope's consistency rules.
    pub fn validate(&self) -> (r: Result<(), String>)
        ensures
            r is Ok <==> spec_inconsistency(*self) is None,
            r matches Err(m) ==> m@ == inconsistency_message(spec_inconsistency(*self)->0),
    {
        if compare_strings(self.schema.as_str(), COMMAND_RESULT_SCHEMA) != 0 {
            return Err(owned("command-result schema identifier is inconsistent"));
        }
        if self.outcome.exit_code != self.outcome.class.exit_code() {
            return Err(owned("declared exit code does not match the outcome class"));
        }
        let partial = match self.coverage {
            Some(Coverage { status: CoverageStatus::Partial }) => true,
            _ => false,
        };
        if self.outcome.class == CommandOutcomeClass::Success && partial {
            return Err(owned("success cannot declare partial coverage"));
        }
        if self.outcome.class == CommandOutcomeClass::PartialSuccess && self.artifacts.len() == 0
            && self.result.is_none() {
            return Err(owned("partial success requires a valid result or committed artifact"));
        }
        Ok(())
    }
}

} // verus!
