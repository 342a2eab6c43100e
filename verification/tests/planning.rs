use optiflow::domain::{
    DuplicateGroup, DuplicateMember, EvidenceValidity, ExactDuplicateEvidence, FileObservation, MediaKind,
    NativePath, ObservationStability, ObservationStatus, ScanOptions, ScanReport, ScanRun, ScanSummary,
    REPORT_SCHEMA_VERSION,
};
use optiflow::filesystem::{PhysicalReclaimability, ReclaimabilityReasonCode, ReclaimabilityStatus};
use optiflow::planning::{exact_duplicate_plan, exact_duplicate_plan_with};

fn utf8(path: &str) -> NativePath {
    NativePath::Utf8 { value: path.to_owned() }
}

fn observation(path: &str) -> FileObservation {
    FileObservation {
        observation_id: path.to_owned(),
        run_id: "run".to_owned(),
        path: utf8(path),
        size_bytes: 100,
        modified_unix_ns: Some(1),
        device_id: None,
        inode: None,
        content_type: None,
        media_kind: MediaKind::Unknown,
        content_hash: Some("hash".to_owned()),
        hash_algorithm: Some("blake3-256".to_owned()),
        media: None,
        status: ObservationStatus::Unsupported,
        cache_hit: false,
        warnings: Vec::new(),
        filesystem_identity: None,
        storage_allocation: None,
        observation_stability: ObservationStability::Stable,
        evidence_validity: EvidenceValidity::Current,
        attempt_count: 1,
    }
}

fn make_report(observations: Vec<FileObservation>, groups: Vec<DuplicateGroup>) -> ScanReport {
    ScanReport {
        schema_version: REPORT_SCHEMA_VERSION.to_owned(),
        generated_at: "now".to_owned(),
        run: ScanRun {
            schema_version: "optiflow.run.v3".to_owned(),
            run_id: "run".to_owned(),
            artifact_set_id: None,
            created_at: "now".to_owned(),
            completed_at: "now".to_owned(),
            inputs: Vec::new(),
            options: ScanOptions { follow_symlinks: false, include_hidden: false, cross_filesystems: false, probe_media: false },
            artifact_directory: "/tmp".to_owned(),
            discovered_files: 2,
            analyzed_files: 2,
            cache_hits: 0,
            total_bytes: 200,
            warnings: Vec::new(),
        },
        summary: ScanSummary {
            file_count: 2,
            total_bytes: 200,
            media_files: 0,
            unsupported_files: 2,
            unreadable_files: 0,
            exact_duplicate_groups: 1,
            exact_duplicate_files: 2,
            reclaimable_bytes: 100,
            cache_hits: 0,
            unique_object_count: 2,
            hard_link_alias_path_count: 0,
            unstable_observation_count: 0,
        },
        duplicate_groups: groups,
        observations,
        hard_link_groups: Vec::new(),
        storage: None,
    }
}

fn group(members: Vec<DuplicateMember>) -> DuplicateGroup {
    DuplicateGroup {
        group_id: "group".to_owned(),
        classification: "exact".to_owned(),
        evidence: ExactDuplicateEvidence {
            algorithm: "blake3-256".to_owned(),
            complete_content_hash: "hash".to_owned(),
            identical_size_bytes: 100,
            member_count: 2,
            observed_path_count: 2,
        },
        members,
        reclaimable_bytes: 100,
        physical_reclaimability: PhysicalReclaimability {
            status: ReclaimabilityStatus::Unknown,
            reason_codes: vec![ReclaimabilityReasonCode::ExtentSharingUnknown],
        },
    }
}

fn member(path: &str, aliases: &[&str]) -> DuplicateMember {
    DuplicateMember {
        path: utf8(path),
        observation_id: path.to_owned(),
        alias_paths: aliases.iter().map(|a| utf8(a)).collect(),
    }
}

#[test]
fn plan_is_read_only_and_deterministic_about_default_keep_path() {
    let report = make_report(
        vec![observation("/z"), observation("/a")],
        vec![group(vec![member("/z", &[]), member("/a", &[])])],
    );
    let plan = exact_duplicate_plan(&report);
    assert!(!plan.safety.mutates_files);
    assert_eq!(plan.actions[0].keep_path, utf8("/a"));
    assert_eq!(plan.actions[0].candidate_paths, vec![utf8("/z")]);
}

#[test]
fn plan_summarises_candidates_preconditions_and_ids() {
    let report = make_report(
        vec![observation("/z"), observation("/a"), observation("/z2")],
        vec![group(vec![member("/z", &["/z2"]), member("/a", &[])]), group(Vec::new())],
    );
    let plan = exact_duplicate_plan_with(
        &report,
        "plan-1".to_owned(),
        "2024-01-01T00:00:00+00:00".to_owned(),
        vec!["action-1".to_owned(), "action-2".to_owned()],
    );
    assert_eq!(plan.plan_id, "plan-1");
    assert_eq!(plan.mode, "exact_duplicates_review");
    assert_eq!(plan.actions.len(), 1);
    assert_eq!(plan.actions[0].action_id, "action-1");
    assert_eq!(plan.actions[0].candidate_paths, vec![utf8("/z"), utf8("/z2")]);
    assert_eq!(plan.actions[0].preconditions.len(), 3);
    assert_eq!(plan.actions[0].preconditions[0].path, utf8("/z"));
    assert_eq!(plan.actions[0].preconditions[0].expected_size_bytes, 100);
    assert_eq!(plan.summary.action_count, 1);
    assert_eq!(plan.summary.candidate_file_count, 2);
    assert_eq!(plan.summary.potential_reclaimable_bytes, 100);
    assert!(plan.safety.requires_explicit_apply);
}

#[test]
fn fresh_plan_and_action_ids_are_version_seven_uuids() {
    let report = make_report(
        vec![observation("/z"), observation("/a")],
        vec![group(vec![member("/z", &[]), member("/a", &[])])],
    );
    let plan = exact_duplicate_plan(&report);
    let mut ids = vec![plan.plan_id.clone()];
    ids.extend(plan.actions.iter().map(|a| a.action_id.clone()));
    assert_eq!(ids.len(), 2);
    for id in &ids {
        let chars: Vec<char> = id.chars().collect();
        assert_eq!(chars.len(), 36);
        for (i, c) in chars.iter().enumerate() {
            if [8, 13, 18, 23].contains(&i) {
                assert_eq!(*c, '-');
            } else {
                assert!(c.is_ascii_digit() || ('a'..='f').contains(c));
            }
        }
        assert_eq!(chars[14], '7');
        assert!(['8', '9', 'a', 'b'].contains(&chars[19]));
    }
    assert_ne!(ids[0], ids[1]);
}
