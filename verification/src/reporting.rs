//! The decisions of the command front end: the output format a raw command
//! line asks for, interruption outcomes, which stored reports are accepted,
//! when a report or plan is partial, what an artifact-set inspection means
//! for a report, and how a run's historical policy is reviewed.

use vstd::prelude::*;
use crate::artifact_set::{ArtifactSetInspection, ArtifactSetManifest, ArtifactSetStatus};
use crate::cli::OutputFormat;
use crate::configuration::policy::{
    ConfigurationSourceRecord, ConfigurationSourceStatus, EffectivePolicyV1, PolicyDigest,
    EFFECTIVE_POLICY_SCHEMA, spec_fingerprints_valid,
};
use crate::configuration::policy::validate_fingerprints;
use crate::domain::{
    path_of_bytes, ScanReport, REPORT_SCHEMA_VERSION, REPORT_SCHEMA_VERSION_V1,
    REPORT_SCHEMA_VERSION_V2, REPORT_SCHEMA_VERSION_V3, REPORT_SCHEMA_VERSION_V4,
};
use crate::json::{decimal_digits, push_decimal, push_str};
use crate::outcome::{
    empty_context, CoverageStatus, Diagnostic, DiagnosticClassification, DiagnosticCode,
    DiagnosticContext, DiagnosticImpact, DiagnosticSeverity,
};
use crate::signals::Interruption;
use crate::text::{compare_strings, owned, string_of};

verus! {

/// Whether `d` has these parts, no retry hint, and no context beyond what
/// the caller states.
pub open spec fn diagnosed(
    d: Diagnostic,
    code: DiagnosticCode,
    severity: DiagnosticSeverity,
    classification: DiagnosticClassification,
    impact: DiagnosticImpact,
    message: Seq<char>,
) -> bool {
    &&& d.code == code
    &&& d.severity == severity
    &&& d.classification == classification
    &&& d.impact == impact
    &&& d.message@ == message
    &&& d.retryable is None
}

fn joined(prefix: &str, detail: &str) -> (r: String)
    ensures
        r@ == prefix@ + detail@,
{
    let mut text: Vec<char> = Vec::new();
    push_str(&mut text, prefix);
    push_str(&mut text, detail);
    assert(text@ =~= prefix@ + detail@);
    string_of(&text)
}

// ---------------------------------------------------------------------------
// The output format a raw command line asks for.

/// The format asked for by the arguments from position `i` on: `--json` or
/// `--output-format=json`, or `--output-format` followed by `json`; the
/// argument after a bare `--output-format` is consumed either way.
pub open spec fn format_from(arguments: Seq<Seq<char>>, i: int) -> OutputFormat
    decreases arguments.len() - i,
{
    if i < 0 || i >= arguments.len() {
        OutputFormat::Human
    } else if arguments[i] == "--json"@ || arguments[i] == "--output-format=json"@ {
        OutputFormat::Json
    } else if arguments[i] == "--output-format"@ {
        if i + 1 >= arguments.len() {
            OutputFormat::Human
        } else if arguments[i + 1] == "json"@ {
            OutputFormat::Json
        } else {
            format_from(arguments, i + 2)
        }
    } else {
        format_from(arguments, i + 1)
    }
}

pub open spec fn texts(arguments: Seq<String>) -> Seq<Seq<char>> {
    arguments.map_values(|a: String| a@)
}

/// The output format that the raw arguments ask for, read before parsing so
/// that a parse failure is reported in that format. Arguments that are not
/// Unicode are left out by the caller.
pub fn requested_output_format(arguments: &Vec<String>) -> (f: OutputFormat)
    ensures
        f == format_from(texts(arguments@), 0),
{
    let ghost args = texts(arguments@);
    let mut i: usize = 0;
    while i < arguments.len()
        invariant
            args == texts(arguments@),
            format_from(args, 0) == format_from(args, i as int),
        decreases arguments.len() - i,
    {
        let a = arguments[i].as_str();
        if compare_strings(a, "--json") == 0 || compare_strings(a, "--output-format=json") == 0 {
            return OutputFormat::Json;
        }
        if compare_strings(a, "--output-format") == 0 {
            if i + 1 < arguments.len() && compare_strings(arguments[i + 1].as_str(), "json") == 0 {
                return OutputFormat::Json;
            }
            if i + 1 >= arguments.len() {
                return OutputFormat::Human;
            }
            i = i + 2;
        } else {
            i = i + 1;
        }
    }
    OutputFormat::Human
}

// ---------------------------------------------------------------------------
// Interruption.

pub open spec fn interruption_code(interruption: Option<Interruption>) -> DiagnosticCode {
    match interruption {
        Some(Interruption::Terminate) => DiagnosticCode::OperationTerminated,
        _ => DiagnosticCode::OperationInterrupted,
    }
}

pub open spec fn interruption_message(interruption: Option<Interruption>) -> Seq<char> {
    match interruption {
        Some(Interruption::Terminate) => "the operation was terminated by SIGTERM"@,
        _ => "the operation was interrupted by SIGINT"@,
    }
}

/// The blocking diagnostic of a command stopped by a signal: SIGTERM when
/// that is what arrived, SIGINT otherwise.
pub fn interruption_diagnostic(interruption: Option<Interruption>, run_id: Option<String>) -> (d: Diagnostic)
    ensures
        diagnosed(
            d,
            interruption_code(interruption),
            DiagnosticSeverity::Error,
            DiagnosticClassification::Interruption,
            DiagnosticImpact::BlocksCommand,
            interruption_message(interruption),
        ),
        d.context == (DiagnosticContext { run_id, ..empty_context() }),
{
    let (code, message) = match interruption {
        Some(Interruption::Terminate) => (DiagnosticCode::OperationTerminated, "the operation was terminated by SIGTERM"),
        _ => (DiagnosticCode::OperationInterrupted, "the operation was interrupted by SIGINT"),
    };
    let mut d = Diagnostic::new(
        code,
        DiagnosticSeverity::Error,
        DiagnosticClassification::Interruption,
        DiagnosticImpact::BlocksCommand,
        owned(message),
    );
    d.context.run_id = run_id;
    d
}

// ---------------------------------------------------------------------------
// Stored reports.

/// The report schemas this version reads.
pub open spec fn spec_supported_report_schema(schema: Seq<char>) -> bool {
    ||| schema == REPORT_SCHEMA_VERSION@
    ||| schema == REPORT_SCHEMA_VERSION_V1@
    ||| schema == REPORT_SCHEMA_VERSION_V2@
    ||| schema == REPORT_SCHEMA_VERSION_V3@
    ||| schema == REPORT_SCHEMA_VERSION_V4@
}

/// Whether a stored report declares a schema this version reads.
pub fn supported_report_schema(schema: &str) -> (r: bool)
    ensures
        r == spec_supported_report_schema(schema@),
{
    compare_strings(schema, REPORT_SCHEMA_VERSION) == 0
        || compare_strings(schema, REPORT_SCHEMA_VERSION_V1) == 0
        || compare_strings(schema, REPORT_SCHEMA_VERSION_V2) == 0
        || compare_strings(schema, REPORT_SCHEMA_VERSION_V3) == 0
        || compare_strings(schema, REPORT_SCHEMA_VERSION_V4) == 0
}

/// Whether reports of this schema are published inside a committed
/// artifact set.
pub fn report_requires_artifact_set(schema: &str) -> (r: bool)
    ensures
        r == (schema@ == REPORT_SCHEMA_VERSION@),
{
    compare_strings(schema, REPORT_SCHEMA_VERSION) == 0
}

/// The diagnostic of a report whose schema this version does not read.
pub fn unsupported_report_diagnostic(path: &[u8]) -> (d: Diagnostic)
    ensures
        diagnosed(d, DiagnosticCode::StoredStateIncompatible, DiagnosticSeverity::Error,
            DiagnosticClassification::State, DiagnosticImpact::BlocksCommand,
            "the supplied report declares an unsupported schema"@),
        d.context.path matches Some(p) && p@ == path_of_bytes(path@),
{
    Diagnostic::new(
        DiagnosticCode::StoredStateIncompatible,
        DiagnosticSeverity::Error,
        DiagnosticClassification::State,
        DiagnosticImpact::BlocksCommand,
        owned("the supplied report declares an unsupported schema"),
    ).with_path(path)
}

/// A report is partial when it saw unstable or unreadable files, or its run
/// recorded warnings.
pub open spec fn spec_report_is_partial(report: ScanReport) -> bool {
    ||| report.summary.unstable_observation_count > 0
    ||| report.summary.unreadable_files > 0
    ||| report.run.warnings.len() > 0
}

pub fn report_is_partial(report: &ScanReport) -> (r: bool)
    ensures
        r == spec_report_is_partial(*report),
{
    report.summary.unstable_observation_count > 0
        || report.summary.unreadable_files > 0
        || report.run.warnings.len() > 0
}

/// The coverage of a command built on a stored report.
pub fn report_coverage(report: &ScanReport) -> (c: CoverageStatus)
    ensures
        c == (if spec_report_is_partial(*report) { CoverageStatus::Partial } else { CoverageStatus::Complete }),
{
    if report_is_partial(report) { CoverageStatus::Partial } else { CoverageStatus::Complete }
}

/// The warning that a command rests on a run with incomplete evidence.
pub fn source_run_partial_diagnostic(run_id: String) -> (d: Diagnostic)
    ensures
        diagnosed(d, DiagnosticCode::SourceRunPartial, DiagnosticSeverity::Warning,
            DiagnosticClassification::Coverage, DiagnosticImpact::DegradesCoverage,
            "the source run has incomplete or excluded evidence"@),
        d.context == (DiagnosticContext { run_id: Some(run_id), ..empty_context() }),
{
    Diagnostic::new(
        DiagnosticCode::SourceRunPartial,
        DiagnosticSeverity::Warning,
        DiagnosticClassification::Coverage,
        DiagnosticImpact::DegradesCoverage,
        owned("the source run has incomplete or excluded evidence"),
    ).with_run_id(run_id)
}

// ---------------------------------------------------------------------------
// Artifact sets behind stored reports.

/// The manifest of a committed set, or the blocking diagnostic of an
/// incomplete or incompatible one (both are stored state this command
/// cannot use).
pub fn require_committed_artifact_set(inspection: ArtifactSetInspection, path: &[u8]) -> (r: Result<ArtifactSetManifest, Box<Diagnostic>>)
    ensures
        match r {
            Ok(m) => inspection.status == ArtifactSetStatus::Committed && inspection.manifest == Some(m),
            Err(d) => {
                &&& d.context.path matches Some(p) && p@ == path_of_bytes(path@)
                &&& if inspection.status == ArtifactSetStatus::Committed {
                    &&& inspection.manifest is None
                    &&& diagnosed(*d, DiagnosticCode::InternalInvariantViolated, DiagnosticSeverity::Fatal,
                        DiagnosticClassification::Internal, DiagnosticImpact::BlocksCommand,
                        "artifact-set inspection omitted its committed manifest"@)
                } else {
                    diagnosed(*d, DiagnosticCode::StoredStateIncompatible, DiagnosticSeverity::Error,
                        DiagnosticClassification::State, DiagnosticImpact::BlocksCommand, inspection.detail@)
                }
            },
        },
        inspection.status == ArtifactSetStatus::Committed && inspection.manifest is Some ==> r is Ok,
{
    match inspection.status {
        ArtifactSetStatus::Committed => match inspection.manifest {
            Some(m) => Ok(m),
            None => Err(Box::new(Diagnostic::new(
                DiagnosticCode::InternalInvariantViolated,
                DiagnosticSeverity::Fatal,
                DiagnosticClassification::Internal,
                DiagnosticImpact::BlocksCommand,
                owned("artifact-set inspection omitted its committed manifest"),
            ).with_path(path))),
        },
        _ => Err(Box::new(Diagnostic::new(
            DiagnosticCode::StoredStateIncompatible,
            DiagnosticSeverity::Error,
            DiagnosticClassification::State,
            DiagnosticImpact::BlocksCommand,
            inspection.detail,
        ).with_path(path))),
    }
}

/// The committed set of a report, which must declare the same set identity
/// as the report's run.
pub fn require_report_artifact_set(inspection: ArtifactSetInspection, path: &[u8], report: &ScanReport) -> (r: Result<ArtifactSetManifest, Box<Diagnostic>>)
    ensures
        match r {
            Ok(m) => {
                &&& inspection.status == ArtifactSetStatus::Committed
                &&& inspection.manifest == Some(m)
                &&& report.run.artifact_set_id matches Some(id) && id@ == m.set_id@
            },
            Err(d) => match (inspection.status, inspection.manifest) {
                (ArtifactSetStatus::Committed, Some(m)) => {
                    &&& !(report.run.artifact_set_id matches Some(id) && id@ == m.set_id@)
                    &&& diagnosed(*d, DiagnosticCode::StoredStateIncompatible, DiagnosticSeverity::Error,
                        DiagnosticClassification::State, DiagnosticImpact::BlocksCommand,
                        "the report and artifact-set marker declare different set identities"@)
                    &&& d.context.path matches Some(p) && p@ == path_of_bytes(path@)
                },
                (ArtifactSetStatus::Committed, None) => d.code == DiagnosticCode::InternalInvariantViolated,
                _ => d.code == DiagnosticCode::StoredStateIncompatible && d.message@ == inspection.detail@,
            },
        },
{
    let manifest = require_committed_artifact_set(inspection, path)?;
    let same = match &report.run.artifact_set_id {
        Some(id) => compare_strings(id.as_str(), manifest.set_id.as_str()) == 0,
        None => false,
    };
    if !same {
        return Err(Box::new(Diagnostic::new(
            DiagnosticCode::StoredStateIncompatible,
            DiagnosticSeverity::Error,
            DiagnosticClassification::State,
            DiagnosticImpact::BlocksCommand,
            owned("the report and artifact-set marker declare different set identities"),
        ).with_path(path)));
    }
    Ok(manifest)
}

// ---------------------------------------------------------------------------
// Run references.

pub open spec fn hex_char(c: char) -> bool {
    ('0' <= c && c <= '9') || ('a' <= c && c <= 'f') || ('A' <= c && c <= 'F')
}

/// Eight, four, four, four and twelve hex digits, joined by hyphens.
pub open spec fn hyphenated_uuid(s: Seq<char>) -> bool {
    &&& s.len() == 36
    &&& forall|i: int| 0 <= i < 36 ==> if i == 8 || i == 13 || i == 18 || i == 23 {
        #[trigger] s[i] == '-'
    } else {
        hex_char(s[i])
    }
}

pub open spec fn ascii_lower(c: char) -> char {
    if 'A' <= c && c <= 'Z' { ((c as u32) + 32) as char } else { c }
}

/// The text forms `uuid::Uuid::parse_str` accepts: 32 hex digits; the
/// hyphenated form; the hyphenated form in braces; or `urn:uuid:` in any
/// letter case before the hyphenated form.
pub open spec fn uuid_text(s: Seq<char>) -> bool {
    ||| s.len() == 32 && forall|i: int| 0 <= i < 32 ==> hex_char(#[trigger] s[i])
    ||| hyphenated_uuid(s)
    ||| s.len() == 38 && s[0] == '{' && s[37] == '}' && hyphenated_uuid(s.subrange(1, 37))
    ||| s.len() == 45 && hyphenated_uuid(s.skip(9))
        && forall|i: int| 0 <= i < 9 ==> ascii_lower(#[trigger] s[i]) == "urn:uuid:"@[i]
}

/// Wraps `uuid::Uuid::parse_str`: it accepts exactly the forms of
/// `uuid_text` (checked against the parser of the version in use, which
/// tests the length, the hyphen positions, the brace or prefix, and that
/// every other byte is an ASCII hex digit).
#[verifier::external_body]
fn parses_as_uuid(text: &str) -> (r: bool)
    ensures
        r == uuid_text(text@),
{
    uuid::Uuid::parse_str(text).is_ok()
}

/// A run reference that is not an existing report path must be a run
/// identifier; anything else is refused as invalid input.
pub fn check_run_identifier(reference: &str) -> (r: Result<(), Box<Diagnostic>>)
    ensures
        r is Ok <==> uuid_text(reference@),
        r matches Err(d) ==> diagnosed(*d, DiagnosticCode::InvalidCommandInput, DiagnosticSeverity::Error,
            DiagnosticClassification::Input, DiagnosticImpact::BlocksCommand,
            "the run reference is neither an existing report path nor a valid run identifier"@)
            && d.context == empty_context(),
{
    if parses_as_uuid(reference) {
        Ok(())
    } else {
        Err(Box::new(Diagnostic::new(
            DiagnosticCode::InvalidCommandInput,
            DiagnosticSeverity::Error,
            DiagnosticClassification::Input,
            DiagnosticImpact::BlocksCommand,
            owned("the run reference is neither an existing report path nor a valid run identifier"),
        )))
    }
}

/// The diagnostic of a run identifier with no stored report: an interrupted
/// run has none by design; any other status means the run is unknown.
pub fn missing_run_diagnostic(run_id: String, status: Option<&str>) -> (d: Diagnostic)
    ensures
        (status matches Some(s) && s@ == "interrupted"@) ==> diagnosed(d, DiagnosticCode::SourceRunInterrupted,
            DiagnosticSeverity::Error, DiagnosticClassification::State, DiagnosticImpact::BlocksCommand,
            "the requested scan run was interrupted and has no complete report"@),
        !(status matches Some(s) && s@ == "interrupted"@) ==> diagnosed(d, DiagnosticCode::StoredRunNotFound,
            DiagnosticSeverity::Error, DiagnosticClassification::State, DiagnosticImpact::BlocksCommand,
            "the requested completed scan run was not found"@),
        d.context == (DiagnosticContext { run_id: Some(run_id), ..empty_context() }),
{
    let interrupted = match status {
        Some(s) => compare_strings(s, "interrupted") == 0,
        None => false,
    };
    let (code, message) = if interrupted {
        (DiagnosticCode::SourceRunInterrupted, "the requested scan run was interrupted and has no complete report")
    } else {
        (DiagnosticCode::StoredRunNotFound, "the requested completed scan run was not found")
    };
    Diagnostic::new(code, DiagnosticSeverity::Error, DiagnosticClassification::State, DiagnosticImpact::BlocksCommand, owned(message))
        .with_run_id(run_id)
}

// ---------------------------------------------------------------------------
// The historical policy of a run.

/// What reading a run's persisted effective policy gave.
pub enum HistoricalPolicy {
    /// The run predates persisted policies.
    Missing,
    /// The file exists and could not be read; the reason.
    Unreadable(String),
    /// The file could not be decoded as a policy; the reason.
    Incompatible(String),
    /// The decoded policy.
    Decoded(EffectivePolicyV1),
}

/// The outcome of reviewing a run's historical policy: the schema of the
/// policy when it is usable evidence, and what the review found.
pub struct PolicyReview {
    pub accepted_schema: Option<String>,
    pub diagnostics: Vec<Diagnostic>,
}

pub open spec fn same_digest(a: PolicyDigest, b: PolicyDigest) -> bool {
    a.algorithm@ == b.algorithm@ && a.value@ == b.value@
}

pub open spec fn review_diagnostic(d: Diagnostic, run_id: Seq<char>, code: DiagnosticCode, severity: DiagnosticSeverity, message: Seq<char>) -> bool {
    &&& diagnosed(d, code, severity, DiagnosticClassification::State, DiagnosticImpact::NoImpact, message)
    &&& d.context.run_id matches Some(r) && r@ == run_id
    &&& d.context == (DiagnosticContext { run_id: d.context.run_id, ..empty_context() })
}

/// Reviews a run's historical policy against the current one. A missing
/// policy is noted; an unreadable, undecodable or tampered one is warned
/// about and not used; a usable one whose evidence fingerprint differs from
/// the current policy's is noted.
pub fn review_source_policy(run_id: &str, historical: HistoricalPolicy, current: &EffectivePolicyV1) -> (r: PolicyReview)
    ensures
        match historical {
            HistoricalPolicy::Missing => r.accepted_schema is None && r.diagnostics@.len() == 1
                && review_diagnostic(r.diagnostics@[0], run_id@, DiagnosticCode::HistoricalPolicyUnknown,
                    DiagnosticSeverity::Information, "the historical run predates persisted effective-policy evidence"@),
            HistoricalPolicy::Unreadable(e) => r.accepted_schema is None && r.diagnostics@.len() == 1
                && review_diagnostic(r.diagnostics@[0], run_id@, DiagnosticCode::HistoricalPolicyUnknown,
                    DiagnosticSeverity::Warning, "the historical effective policy could not be read: "@ + e@),
            HistoricalPolicy::Incompatible(e) => r.accepted_schema is None && r.diagnostics@.len() == 1
                && review_diagnostic(r.diagnostics@[0], run_id@, DiagnosticCode::HistoricalPolicyUnknown,
                    DiagnosticSeverity::Warning, "the historical effective policy is incompatible: "@ + e@),
            HistoricalPolicy::Decoded(p) => if !(p.schema@ == EFFECTIVE_POLICY_SCHEMA@ && spec_fingerprints_valid(p)) {
                &&& r.accepted_schema is None
                &&& r.diagnostics@.len() == 1
                &&& review_diagnostic(r.diagnostics@[0], run_id@, DiagnosticCode::EffectivePolicyFingerprintMismatch,
                    DiagnosticSeverity::Warning,
                    "the historical effective policy failed integrity validation: "@ + (if p.schema@ != EFFECTIVE_POLICY_SCHEMA@ {
                        "unsupported effective-policy schema"@
                    } else {
                        "effective-policy fingerprint mismatch"@
                    }))
            } else {
                &&& r.accepted_schema matches Some(s) && s@ == p.schema@
                &&& if same_digest(p.fingerprints.evidence_policy, current.fingerprints.evidence_policy) {
                    r.diagnostics@.len() == 0
                } else {
                    r.diagnostics@.len() == 1 && review_diagnostic(r.diagnostics@[0], run_id@,
                        DiagnosticCode::SourcePolicyDiffers, DiagnosticSeverity::Information,
                        "the source run used a different evidence policy than the current command"@)
                }
            },
        },
{
    let (code, severity, message) = match historical {
        HistoricalPolicy::Missing => (
            DiagnosticCode::HistoricalPolicyUnknown,
            DiagnosticSeverity::Information,
            owned("the historical run predates persisted effective-policy evidence"),
        ),
        HistoricalPolicy::Unreadable(e) => (
            DiagnosticCode::HistoricalPolicyUnknown,
            DiagnosticSeverity::Warning,
            joined("the historical effective policy could not be read: ", e.as_str()),
        ),
        HistoricalPolicy::Incompatible(e) => (
            DiagnosticCode::HistoricalPolicyUnknown,
            DiagnosticSeverity::Warning,
            joined("the historical effective policy is incompatible: ", e.as_str()),
        ),
        HistoricalPolicy::Decoded(p) => {
            match validate_fingerprints(&p) {
                Err(e) => (
                    DiagnosticCode::EffectivePolicyFingerprintMismatch,
                    DiagnosticSeverity::Warning,
                    joined("the historical effective policy failed integrity validation: ", e.as_str()),
                ),
                Ok(()) => {
                    let mut diagnostics: Vec<Diagnostic> = Vec::new();
                    let same = compare_strings(p.fingerprints.evidence_policy.algorithm.as_str(), current.fingerprints.evidence_policy.algorithm.as_str()) == 0
                        && compare_strings(p.fingerprints.evidence_policy.value.as_str(), current.fingerprints.evidence_policy.value.as_str()) == 0;
                    if !same {
                        diagnostics.push(Diagnostic::new(
                            DiagnosticCode::SourcePolicyDiffers,
                            DiagnosticSeverity::Information,
                            DiagnosticClassification::State,
                            DiagnosticImpact::NoImpact,
                            owned("the source run used a different evidence policy than the current command"),
                        ).with_run_id(owned(run_id)));
                    }
                    return PolicyReview { accepted_schema: Some(p.schema), diagnostics };
                },
            }
        },
    };
    let d = Diagnostic::new(code, severity, DiagnosticClassification::State, DiagnosticImpact::NoImpact, message)
        .with_run_id(owned(run_id));
    PolicyReview { accepted_schema: None, diagnostics: vec![d] }
}

// ---------------------------------------------------------------------------
// Small summaries.

pub open spec fn loaded_count(sources: Seq<ConfigurationSourceRecord>) -> nat
    decreases sources.len(),
{
    if sources.len() == 0 {
        0
    } else {
        loaded_count(sources.drop_last()) + if sources.last().status == ConfigurationSourceStatus::Loaded { 1nat } else { 0nat }
    }
}

/// How many configuration sources were loaded.
pub fn loaded_source_count(sources: &Vec<ConfigurationSourceRecord>) -> (n: usize)
    ensures
        n == loaded_count(sources@),
{
    let mut n: usize = 0;
    let mut i: usize = 0;
    while i < sources.len()
        invariant
            i <= sources.len(),
            n == loaded_count(sources@.take(i as int)),
            n <= i,
        decreases sources.len() - i,
    {
        assert(sources@.take(i + 1).drop_last() =~= sources@.take(i as int));
        if sources[i].status == ConfigurationSourceStatus::Loaded {
            n = n + 1;
        }
        i = i + 1;
    }
    assert(sources@.take(sources@.len() as int) =~= sources@);
    n
}

pub open spec fn findings_message(unavailable: u64, conflicts: u64) -> Seq<char> {
    "extension inspection found "@ + decimal_digits(unavailable as nat) + " unavailable provider(s) and "@
        + decimal_digits(conflicts as nat) + " precedence conflict(s)"@
}

/// What an extension inspection that found unavailable providers or
/// precedence conflicts adds to its command result: partial coverage and one
/// warning that counts them.
pub fn extension_inspection_findings(unavailable: u64, conflicts: u64) -> (r: (Option<CoverageStatus>, Option<Diagnostic>))
    ensures
        (unavailable + conflicts == 0) <==> r.0 is None,
        r.0 is None <==> r.1 is None,
        r.0 matches Some(c) ==> c == CoverageStatus::Partial,
        r.1 matches Some(d) ==> {
            &&& diagnosed(d, DiagnosticCode::OptionalCapabilityUnavailable, DiagnosticSeverity::Warning,
                DiagnosticClassification::Capability, DiagnosticImpact::DegradesCoverage,
                findings_message(unavailable, conflicts))
            &&& d.context == (DiagnosticContext {
                count: Some(if unavailable + conflicts > u64::MAX { u64::MAX } else { (unavailable + conflicts) as u64 }),
                ..empty_context()
            })
        },
{
    let affected = unavailable.saturating_add(conflicts);
    if affected == 0 {
        return (None, None);
    }
    let mut text: Vec<char> = Vec::new();
    push_str(&mut text, "extension inspection found ");
    push_decimal(&mut text, unavailable);
    push_str(&mut text, " unavailable provider(s) and ");
    push_decimal(&mut text, conflicts);
    push_str(&mut text, " precedence conflict(s)");
    assert(text@ =~= findings_message(unavailable, conflicts));
    let mut d = Diagnostic::new(
        DiagnosticCode::OptionalCapabilityUnavailable,
        DiagnosticSeverity::Warning,
        DiagnosticClassification::Capability,
        DiagnosticImpact::DegradesCoverage,
        string_of(&text),
    );
    d.context.count = Some(affected);
    (Some(CoverageStatus::Partial), Some(d))
}

} // verus!
