//! What a finished scan reports beside its artifacts: a diagnostic for each
//! discovery issue, a warning when observations were excluded from exact
//! groups, the coverage of the result, and the numeric device and inode of
//! an observation where its identity holds them; and the report itself,
//! assembled from the observations of the run.

use vstd::prelude::*;
use crate::discovery::DiscoveryIssue;
use crate::domain::{
    FileObservation, ObservationStability, ObservationStatus, ScanOptions, ScanReport, ScanRun, REPORT_SCHEMA_VERSION,
    RUN_SCHEMA_VERSION,
};
use crate::duplicates::{exact_groups, group_keys, group_matches};
use crate::summary::{count_where, is_media, summarize, total_members, total_reclaimable, total_size};
use crate::filesystem::FilesystemIdentity;
use crate::media_probe::{parse_unsigned, spec_parse_unsigned};
use crate::outcome::{
    empty_context, CoverageStatus, Diagnostic, DiagnosticClassification, DiagnosticCode, DiagnosticContext,
    DiagnosticImpact, DiagnosticSeverity,
};
use crate::reporting::{report_coverage, spec_report_is_partial};
use crate::text::owned;

verus! {

pub const EXCLUSION_WARNING: &'static str =
    "some files changed or could not be read during the scan and were excluded from exact groups";

/// The coverage warning for a discovery issue: its message, path and
/// operating-system error kind.
pub open spec fn issue_diagnosed(d: Diagnostic, issue: DiscoveryIssue) -> bool {
    &&& d.code == DiagnosticCode::PartialInventory
    &&& d.severity == DiagnosticSeverity::Warning
    &&& d.classification == DiagnosticClassification::Coverage
    &&& d.impact == DiagnosticImpact::DegradesCoverage
    &&& d.message == issue.message
    &&& d.context == (DiagnosticContext { path: issue.path, os_error_kind: issue.os_error_kind, ..empty_context() })
    &&& d.retryable is None
}

/// The warning that `count` observations were excluded from exact groups.
pub open spec fn exclusion_diagnosed(d: Diagnostic, count: u64) -> bool {
    &&& d.code == DiagnosticCode::ResultProducedWithExclusions
    &&& d.severity == DiagnosticSeverity::Warning
    &&& d.classification == DiagnosticClassification::Observation
    &&& d.impact == DiagnosticImpact::DegradesCoverage
    &&& d.message@ == EXCLUSION_WARNING@
    &&& d.context == (DiagnosticContext { count: Some(count), ..empty_context() })
    &&& d.retryable is None
}

/// The diagnostic of one discovery issue.
pub fn issue_diagnostic(issue: &DiscoveryIssue) -> (d: Diagnostic)
    ensures
        issue_diagnosed(d, *issue),
{
    let mut d = Diagnostic::new(
        DiagnosticCode::PartialInventory,
        DiagnosticSeverity::Warning,
        DiagnosticClassification::Coverage,
        DiagnosticImpact::DegradesCoverage,
        issue.message.clone(),
    );
    d.context.path = match &issue.path {
        Some(p) => Some(p.copy()),
        None => None,
    };
    d.context.os_error_kind = match &issue.os_error_kind {
        Some(k) => Some(k.clone()),
        None => None,
    };
    d
}

/// The diagnostics of a finished scan: one per discovery issue, in order,
/// then the exclusion warning when `unstable_count` observations were
/// unstable.
pub fn scan_diagnostics(issues: &Vec<DiscoveryIssue>, unstable_count: u64) -> (r: Vec<Diagnostic>)
    ensures
        r@.len() == issues@.len() + (if unstable_count > 0 { 1int } else { 0int }),
        forall|i: int| 0 <= i < issues@.len() ==> issue_diagnosed(#[trigger] r@[i], issues@[i]),
        unstable_count > 0 ==> exclusion_diagnosed(r@[issues@.len() as int], unstable_count),
{
    let mut r: Vec<Diagnostic> = Vec::new();
    let mut i: usize = 0;
    while i < issues.len()
        invariant
            i <= issues@.len(),
            r@.len() == i,
            forall|k: int| 0 <= k < i ==> issue_diagnosed(#[trigger] r@[k], issues@[k]),
        decreases issues@.len() - i,
    {
        r.push(issue_diagnostic(&issues[i]));
        i = i + 1;
    }
    if unstable_count > 0 {
        let mut d = Diagnostic::new(
            DiagnosticCode::ResultProducedWithExclusions,
            DiagnosticSeverity::Warning,
            DiagnosticClassification::Observation,
            DiagnosticImpact::DegradesCoverage,
            owned(EXCLUSION_WARNING),
        );
        d.context.count = Some(unstable_count);
        r.push(d);
    }
    r
}

/// The coverage of a finished scan: partial when anything was diagnosed,
/// else the coverage of its report.
pub fn scan_coverage(report: &ScanReport, diagnostics: &Vec<Diagnostic>) -> (c: CoverageStatus)
    ensures
        c == (if diagnostics@.len() > 0 || spec_report_is_partial(*report) {
            CoverageStatus::Partial
        } else {
            CoverageStatus::Complete
        }),
{
    if diagnostics.len() > 0 {
        CoverageStatus::Partial
    } else {
        report_coverage(report)
    }
}

/// The warnings of a run: the message of each discovery issue, in order.
pub open spec fn issue_messages(issues: Seq<DiscoveryIssue>) -> Seq<Seq<char>> {
    issues.map_values(|i: DiscoveryIssue| i.message@)
}

/// What is known of a run when its observations are complete.
pub struct RunFacts {
    pub run_id: String,
    pub artifact_set_id: String,
    pub created_at: String,
    pub completed_at: String,
    pub generated_at: String,
    pub inputs: Vec<String>,
    pub options: ScanOptions,
    pub artifact_directory: String,
    pub discovered_files: u64,
}

/// The report of a finished scan: its run record, the exact duplicate
/// groups of its observations, and their summary; no hard-link groups and
/// no storage summary are reported.
pub fn scan_report(facts: RunFacts, observations: Vec<FileObservation>, issues: &Vec<DiscoveryIssue>) -> (r: ScanReport)
    ensures
        r.schema_version@ == REPORT_SCHEMA_VERSION@,
        r.generated_at@ == facts.generated_at@,
        r.run.schema_version@ == RUN_SCHEMA_VERSION@,
        r.run.run_id@ == facts.run_id@,
        r.run.artifact_set_id matches Some(id) && id@ == facts.artifact_set_id@,
        r.run.created_at@ == facts.created_at@,
        r.run.completed_at@ == facts.completed_at@,
        r.run.inputs@ == facts.inputs@,
        r.run.options == facts.options,
        r.run.artifact_directory@ == facts.artifact_directory@,
        r.run.discovered_files == facts.discovered_files,
        r.run.analyzed_files == observations@.len(),
        r.run.cache_hits == r.summary.cache_hits,
        r.run.total_bytes == r.summary.total_bytes,
        r.run.warnings@.map_values(|w: String| w@) == issue_messages(issues@),
        r.observations@ == observations@,
        r.duplicate_groups@.len() == group_keys(observations@).len(),
        forall|i: int| 0 <= i < r.duplicate_groups@.len() ==>
            group_matches(observations@, #[trigger] r.duplicate_groups@[i], group_keys(observations@)[i]),
        r.hard_link_groups@.len() == 0,
        r.storage is None,
        r.summary.file_count == observations@.len(),
        r.summary.total_bytes == total_size(observations@),
        r.summary.media_files == count_where(observations@, |o: FileObservation| is_media(o)),
        r.summary.unsupported_files == count_where(observations@, |o: FileObservation| o.status == ObservationStatus::Unsupported),
        r.summary.unreadable_files == count_where(observations@, |o: FileObservation| o.status == ObservationStatus::Unreadable),
        r.summary.exact_duplicate_groups == r.duplicate_groups@.len(),
        r.summary.exact_duplicate_files == total_members(r.duplicate_groups@),
        r.summary.reclaimable_bytes == total_reclaimable(r.duplicate_groups@),
        r.summary.cache_hits == count_where(observations@, |o: FileObservation| o.cache_hit),
        r.summary.hard_link_alias_path_count == 0,
        r.summary.unique_object_count == observations@.len(),
        r.summary.unstable_observation_count
            == count_where(observations@, |o: FileObservation| o.observation_stability != ObservationStability::Stable),
{
    let groups = exact_groups(observations.as_slice());
    let links = Vec::new();
    let summary = summarize(&observations, &groups, &links);
    let mut warnings: Vec<String> = Vec::new();
    let mut i: usize = 0;
    while i < issues.len()
        invariant
            i <= issues@.len(),
            warnings@.len() == i,
            forall|k: int| 0 <= k < i ==> (#[trigger] warnings@[k])@ == issues@[k].message@,
        decreases issues@.len() - i,
    {
        let m = issues[i].message.clone();
        assert(m@ == issues@[i as int].message@);
        warnings.push(m);
        i = i + 1;
    }
    proof {
        assert(warnings@.map_values(|w: String| w@) =~= issue_messages(issues@));
    }
    let analyzed = observations.len() as u64;
    let run = ScanRun {
        schema_version: owned(RUN_SCHEMA_VERSION),
        run_id: facts.run_id,
        artifact_set_id: Some(facts.artifact_set_id),
        created_at: facts.created_at,
        completed_at: facts.completed_at,
        inputs: facts.inputs,
        options: facts.options,
        artifact_directory: facts.artifact_directory,
        discovered_files: facts.discovered_files,
        analyzed_files: analyzed,
        cache_hits: summary.cache_hits,
        total_bytes: summary.total_bytes,
        warnings,
    };
    ScanReport {
        schema_version: owned(REPORT_SCHEMA_VERSION),
        generated_at: facts.generated_at,
        run,
        summary,
        duplicate_groups: groups,
        observations,
        hard_link_groups: links,
        storage: None,
    }
}

/// A decimal number as `str::parse::<u64>` reads it, when it reads one.
pub open spec fn parsed_number(s: Seq<char>) -> Option<u64> {
    match spec_parse_unsigned(s, u64::MAX as int) {
        Ok(n) => Some(n as u64),
        Err(_) => None,
    }
}

/// The device and inode numbers of an identity whose filesystem and file
/// identifiers are decimal numbers.
pub fn identity_numbers(identity: &Option<FilesystemIdentity>) -> (r: (Option<u64>, Option<u64>))
    ensures
        r == (match identity {
            Some(i) => (parsed_number(i.filesystem_id@), parsed_number(i.file_id@)),
            None => (None::<u64>, None::<u64>),
        }),
{
    match identity {
        Some(i) => {
            let device = match parse_unsigned(i.filesystem_id.as_str(), u64::MAX) {
                Ok(n) => Some(n),
                Err(_) => None,
            };
            let inode = match parse_unsigned(i.file_id.as_str(), u64::MAX) {
                Ok(n) => Some(n),
                Err(_) => None,
            };
            (device, inode)
        },
        None => (None, None),
    }
}

} // verus!
