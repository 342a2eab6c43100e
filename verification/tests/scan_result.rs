use optiflow::artifact_set::{
    is_plan_staging_entry, is_staging_name, plan_recovery, promotes_pending, refuses_plan_commit, staging_name,
    ArtifactSetInspection, ArtifactSetStatus, PlanRecovery,
};
use optiflow::discovery::{DiscoveryIssue, DiscoveryIssueKind};
use optiflow::domain::{NativePath, ScanOptions, ScanReport, ScanRun, ScanSummary, REPORT_SCHEMA_VERSION};
use optiflow::filesystem::FilesystemIdentity;
use optiflow::outcome::{CoverageStatus, DiagnosticCode, DiagnosticSeverity};
use optiflow::scan_result::{identity_numbers, issue_diagnostic, scan_coverage, scan_diagnostics, scan_report, RunFacts};
use optiflow::domain::{EvidenceValidity, FileObservation, MediaKind, ObservationStability, ObservationStatus};

fn issue(message: &str) -> DiscoveryIssue {
    DiscoveryIssue {
        kind: DiscoveryIssueKind::InputUnavailable,
        path: Some(NativePath::Utf8 { value: "/missing".to_owned() }),
        message: message.to_owned(),
        os_error_kind: Some("NotFound".to_owned()),
    }
}

fn report(unstable: u64) -> ScanReport {
    ScanReport {
        schema_version: REPORT_SCHEMA_VERSION.to_owned(),
        generated_at: "now".to_owned(),
        run: ScanRun {
            schema_version: "optiflow.run.v3".to_owned(),
            run_id: "run".to_owned(),
            artifact_set_id: None,
            created_at: "now".to_owned(),
            completed_at: "now".to_owned(),
            inputs: Vec::new(),
            options: ScanOptions { follow_symlinks: false, include_hidden: false, cross_filesystems: false, probe_media: false },
            artifact_directory: "/tmp".to_owned(),
            discovered_files: 0,
            analyzed_files: 0,
            cache_hits: 0,
            total_bytes: 0,
            warnings: Vec::new(),
        },
        summary: ScanSummary {
            file_count: 0,
            total_bytes: 0,
            media_files: 0,
            unsupported_files: 0,
            unreadable_files: 0,
            exact_duplicate_groups: 0,
            exact_duplicate_files: 0,
            reclaimable_bytes: 0,
            cache_hits: 0,
            unique_object_count: 0,
            hard_link_alias_path_count: 0,
            unstable_observation_count: unstable,
        },
        duplicate_groups: Vec::new(),
        observations: Vec::new(),
        hard_link_groups: Vec::new(),
        storage: None,
    }
}

#[test]
fn discovery_issue_becomes_coverage_warning_with_its_path_and_error_kind() {
    let d = issue_diagnostic(&issue("input is unavailable"));
    assert_eq!(d.code, DiagnosticCode::PartialInventory);
    assert_eq!(d.severity, DiagnosticSeverity::Warning);
    assert_eq!(d.message, "input is unavailable");
    assert_eq!(d.context.path, Some(NativePath::Utf8 { value: "/missing".to_owned() }));
    assert_eq!(d.context.os_error_kind.as_deref(), Some("NotFound"));
    assert_eq!(d.context.count, None);
}

#[test]
fn scan_diagnostics_keep_issue_order_and_add_exclusion_warning_last() {
    let issues = vec![issue("first"), issue("second")];
    let diagnostics = scan_diagnostics(&issues, 3);
    assert_eq!(diagnostics.len(), 3);
    assert_eq!(diagnostics[0].message, "first");
    assert_eq!(diagnostics[1].message, "second");
    assert_eq!(diagnostics[2].code, DiagnosticCode::ResultProducedWithExclusions);
    assert_eq!(diagnostics[2].context.count, Some(3));
    assert_eq!(scan_diagnostics(&issues, 0).len(), 2);
    assert!(scan_diagnostics(&Vec::new(), 0).is_empty());
}

#[test]
fn scan_coverage_is_partial_when_diagnosed_or_unstable() {
    assert_eq!(scan_coverage(&report(0), &Vec::new()), CoverageStatus::Complete);
    assert_eq!(scan_coverage(&report(1), &Vec::new()), CoverageStatus::Partial);
    let diagnostics = scan_diagnostics(&vec![issue("gone")], 0);
    assert_eq!(scan_coverage(&report(0), &diagnostics), CoverageStatus::Partial);
}

#[test]
fn identity_numbers_read_decimal_identifiers_only() {
    let identity = |fs: &str, file: &str| {
        Some(FilesystemIdentity {
            platform: "unix".to_owned(),
            filesystem_id: fs.to_owned(),
            file_id: file.to_owned(),
            link_count: Some(1),
        })
    };
    assert_eq!(identity_numbers(&identity("2049", "131")), (Some(2049), Some(131)));
    assert_eq!(identity_numbers(&identity("volume-a", "18446744073709551615")), (None, Some(u64::MAX)));
    assert_eq!(identity_numbers(&identity("18446744073709551616", "")), (None, None));
    assert_eq!(identity_numbers(&None), (None, None));
}

#[test]
fn staging_names_are_hidden_and_recognised() {
    let name = staging_name("plan.json", "0190-set");
    assert_eq!(name, ".plan.json.artifact-set-staging-0190-set");
    assert!(is_staging_name(&name));
    assert!(!is_staging_name("plan.json"));
    assert!(is_plan_staging_entry(&name, "plan.json"));
    assert!(!is_plan_staging_entry(&name, "other.json"));
    assert!(!is_plan_staging_entry(".plan.json", "plan.json"));
}

#[test]
fn plan_recovery_follows_what_is_on_disk() {
    match plan_recovery(false, false, true, true) {
        PlanRecovery::Report(i) => {
            assert_eq!(i.status, ArtifactSetStatus::Incomplete);
            assert_eq!(i.detail, "plan artifact-set directory does not exist");
        }
        other => panic!("unexpected {other:?}"),
    }
    assert!(matches!(plan_recovery(true, true, true, true), PlanRecovery::Inspect));
    assert!(matches!(plan_recovery(true, false, false, true), PlanRecovery::Inspect));
    match plan_recovery(true, false, true, false) {
        PlanRecovery::DiscardPending(i) => {
            assert_eq!(i.status, ArtifactSetStatus::Incomplete);
            assert_eq!(i.detail, "orphaned plan staging state was discarded");
        }
        other => panic!("unexpected {other:?}"),
    }
    assert!(matches!(plan_recovery(true, false, true, true), PlanRecovery::JudgePending));
}

#[test]
fn only_a_committed_pending_marker_is_promoted_and_commits_never_replace() {
    let incomplete = ArtifactSetInspection::incomplete("missing".to_owned());
    assert!(!promotes_pending(&incomplete));
    assert!(!refuses_plan_commit(&incomplete, false, false));
    assert!(refuses_plan_commit(&incomplete, true, false));
    assert!(refuses_plan_commit(&incomplete, false, true));
    let incompatible = ArtifactSetInspection::incompatible("bad".to_owned());
    assert!(!promotes_pending(&incompatible));
}

fn observed(path: &str, size: u64, hash: &str) -> FileObservation {
    FileObservation {
        observation_id: path.to_owned(),
        run_id: "run".to_owned(),
        path: NativePath::Utf8 { value: path.to_owned() },
        size_bytes: size,
        modified_unix_ns: Some(1),
        device_id: None,
        inode: None,
        content_type: None,
        media_kind: MediaKind::Unknown,
        content_hash: Some(hash.to_owned()),
        hash_algorithm: Some("blake3-256".to_owned()),
        media: None,
        status: ObservationStatus::Unsupported,
        cache_hit: true,
        warnings: Vec::new(),
        filesystem_identity: None,
        storage_allocation: None,
        observation_stability: ObservationStability::Stable,
        evidence_validity: EvidenceValidity::Current,
        attempt_count: 1,
    }
}

#[test]
fn scan_report_records_the_run_groups_and_summary() {
    let facts = RunFacts {
        run_id: "run".to_owned(),
        artifact_set_id: "set".to_owned(),
        created_at: "t0".to_owned(),
        completed_at: "t1".to_owned(),
        generated_at: "t2".to_owned(),
        inputs: vec!["/data".to_owned()],
        options: ScanOptions { follow_symlinks: false, include_hidden: false, cross_filesystems: false, probe_media: false },
        artifact_directory: "/state/runs/run".to_owned(),
        discovered_files: 4,
    };
    let observations = vec![observed("/data/a", 10, "h1"), observed("/data/b", 10, "h1"), observed("/data/c", 7, "h2")];
    let report = scan_report(facts, observations, &vec![issue("walk stopped")]);
    assert_eq!(report.schema_version, REPORT_SCHEMA_VERSION);
    assert_eq!(report.generated_at, "t2");
    assert_eq!(report.run.artifact_set_id.as_deref(), Some("set"));
    assert_eq!(report.run.discovered_files, 4);
    assert_eq!(report.run.analyzed_files, 3);
    assert_eq!(report.run.warnings, vec!["walk stopped".to_owned()]);
    assert_eq!(report.summary.file_count, 3);
    assert_eq!(report.summary.total_bytes, 27);
    assert_eq!(report.run.total_bytes, 27);
    assert_eq!(report.summary.cache_hits, 3);
    assert_eq!(report.run.cache_hits, 3);
    assert_eq!(report.duplicate_groups.len(), 1);
    assert_eq!(report.summary.exact_duplicate_groups, 1);
    assert_eq!(report.summary.reclaimable_bytes, 10);
    assert_eq!(report.observations.len(), 3);
    assert!(report.hard_link_groups.is_empty());
    assert!(report.storage.is_none());
}
